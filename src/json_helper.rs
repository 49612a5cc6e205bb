//! A JSON value type and the conversions between it and the library's types.
use vstd::prelude::*;
use vstd::utf8::{encode_utf8, encode_utf8_decode_utf8};

verus! {

/// A single-precision IEEE 754 number, held as its bit pattern.
#[derive(Clone, Copy, Debug, PartialEq, Eq, Structural)]
pub struct Real32 {
    pub bits: u32,
}

impl View for Real32 {
    type V = Real32;

    open spec fn view(&self) -> Real32 {
        *self
    }
}

/// A JSON value.
///
/// Numbers are kept in the kind that the schema reads: unsigned integers,
/// negative integers, and numbers of float kind, which are held at single
/// precision. The entries of an object keep their order.
#[derive(Debug)]
pub enum Json {
    Null,
    Bool(bool),
    UInt(u64),
    Int(i64),
    Float(Real32),
    Str(String),
    Array(Vec<Json>),
    Object(Vec<(String, Json)>),
}

/// The mathematical value of a [`Json`].
pub enum JsonView {
    Null,
    Bool(bool),
    UInt(u64),
    Int(i64),
    Float(Real32),
    Str(Seq<char>),
    Array(Seq<JsonView>),
    Object(Seq<(Seq<char>, JsonView)>),
}

impl View for Json {
    type V = JsonView;

    open spec fn view(&self) -> JsonView
        decreases self,
    {
        match self {
            Json::Null => JsonView::Null,
            Json::Bool(b) => JsonView::Bool(*b),
            Json::UInt(n) => JsonView::UInt(*n),
            Json::Int(n) => JsonView::Int(*n),
            Json::Float(x) => JsonView::Float(*x),
            Json::Str(s) => JsonView::Str(s@),
            Json::Array(v) => JsonView::Array(
                Seq::new(
                    v@.len(),
                    |i: int|
                        if 0 <= i < v.len() {
                            v[i].view()
                        } else {
                            JsonView::Null
                        },
                ),
            ),
            Json::Object(v) => JsonView::Object(
                Seq::new(
                    v@.len(),
                    |i: int|
                        if 0 <= i < v.len() {
                            (v[i].0@, v[i].1.view())
                        } else {
                            (Seq::empty(), JsonView::Null)
                        },
                ),
            ),
        }
    }
}

/// The value of the first entry of `entries` whose key is `key`.
pub open spec fn lookup(entries: Seq<(Seq<char>, JsonView)>, key: Seq<char>) -> Option<JsonView>
    decreases entries.len(),
{
    if entries.len() == 0 {
        None
    } else if entries[0].0 == key {
        Some(entries[0].1)
    } else {
        lookup(entries.drop_first(), key)
    }
}

impl JsonView {
    /// The keys of an object; empty for any other value.
    pub open spec fn keys(self) -> Set<Seq<char>> {
        Set::new(|k: Seq<char>| self.get(k) is Some)
    }

    /// The value under `key`, when this is an object that has such an entry.
    /// Where several entries share the key, the first one counts.
    pub open spec fn get(self, key: Seq<char>) -> Option<JsonView> {
        match self {
            JsonView::Object(entries) => lookup(entries, key),
            _ => None,
        }
    }
}

/// The view of an optional value.
pub open spec fn opt_view<T: View>(o: Option<T>) -> Option<T::V> {
    match o {
        Some(x) => Some(x@),
        None => None,
    }
}

/// Whether two texts hold the same characters.
pub fn text_eq(a: &str, b: &str) -> (r: bool)
    ensures
        r == (a@ == b@),
{
    let x = a.as_bytes();
    let y = b.as_bytes();
    proof {
        encode_utf8_decode_utf8(a@);
        encode_utf8_decode_utf8(b@);
    }
    if x.len() != y.len() {
        return false;
    }
    let mut i: usize = 0;
    while i < x.len()
        invariant
            x@ == encode_utf8(a@),
            y@ == encode_utf8(b@),
            x@.len() == y@.len(),
            i <= x@.len(),
            forall|k: int| 0 <= k < i ==> x@[k] == y@[k],
        decreases x@.len() - i,
    {
        if x[i] != y[i] {
            return false;
        }
        i = i + 1;
    }
    assert(x@ =~= y@);
    true
}

/// Whether `a` comes no later than `b` in the order of bytes from index `i`
/// on.
pub open spec fn bytes_le_from(a: Seq<u8>, b: Seq<u8>, i: int) -> bool
    decreases a.len() - i,
{
    if i < 0 || i >= a.len() {
        true
    } else if i >= b.len() {
        false
    } else if a[i] != b[i] {
        a[i] < b[i]
    } else {
        bytes_le_from(a, b, i + 1)
    }
}

/// Whether text `a` comes no later than text `b` in lexicographic order of
/// their UTF-8 bytes, which is the order of their characters' code points.
pub open spec fn text_le(a: Seq<char>, b: Seq<char>) -> bool {
    bytes_le_from(encode_utf8(a), encode_utf8(b), 0)
}

proof fn lemma_bytes_le_total(a: Seq<u8>, b: Seq<u8>, i: int)
    requires
        0 <= i,
    ensures
        bytes_le_from(a, b, i) || bytes_le_from(b, a, i),
    decreases a.len() - i,
{
    if i < a.len() && i < b.len() && a[i] == b[i] {
        lemma_bytes_le_total(a, b, i + 1);
    }
}

proof fn lemma_bytes_le_transitive(a: Seq<u8>, b: Seq<u8>, c: Seq<u8>, i: int)
    requires
        0 <= i,
        bytes_le_from(a, b, i),
        bytes_le_from(b, c, i),
    ensures
        bytes_le_from(a, c, i),
    decreases a.len() - i,
{
    if i < a.len() && i < b.len() && i < c.len() && a[i] == b[i] && b[i] == c[i] {
        lemma_bytes_le_transitive(a, b, c, i + 1);
    }
}

/// Any two texts are ordered one way or the other.
pub proof fn lemma_text_le_total(a: Seq<char>, b: Seq<char>)
    ensures
        text_le(a, b) || text_le(b, a),
{
    lemma_bytes_le_total(encode_utf8(a), encode_utf8(b), 0);
}

/// The order of texts is transitive.
pub proof fn lemma_text_le_transitive(a: Seq<char>, b: Seq<char>, c: Seq<char>)
    requires
        text_le(a, b),
        text_le(b, c),
    ensures
        text_le(a, c),
{
    lemma_bytes_le_transitive(encode_utf8(a), encode_utf8(b), encode_utf8(c), 0);
}

/// Whether text `a` comes no later than text `b`.
pub fn text_ordered(a: &str, b: &str) -> (r: bool)
    ensures
        r == text_le(a@, b@),
{
    let x = a.as_bytes();
    let y = b.as_bytes();
    let mut i: usize = 0;
    while i < x.len() && i < y.len() && x[i] == y[i]
        invariant
            x@ == encode_utf8(a@),
            y@ == encode_utf8(b@),
            i <= x@.len(),
            i <= y@.len(),
            bytes_le_from(x@, y@, 0) == bytes_le_from(x@, y@, i as int),
        decreases x@.len() - i,
    {
        i = i + 1;
    }
    if i >= x.len() {
        true
    } else if i >= y.len() {
        false
    } else {
        x[i] < y[i]
    }
}

impl Json {
    /// The value under `key`, when this is an object that has such an entry.
    pub fn get(&self, key: &str) -> (r: Option<&Json>)
        ensures
            opt_view(r) == self@.get(key@),
    {
        match self {
            Json::Object(entries) => {
                let ghost es = self@->Object_0;
                proof {
                    reveal_with_fuel(<Json as View>::view, 2);
                    assert(es.skip(0) =~= es);
                }
                let mut i: usize = 0;
                while i < entries.len()
                    invariant
                        self@ == JsonView::Object(es),
                        es.len() == entries@.len(),
                        forall|k: int|
                            0 <= k < es.len() ==> #[trigger] es[k] == (
                            entries@[k].0@,
                            entries@[k].1@,
                        ),
                        i <= entries@.len(),
                        lookup(es, key@) == lookup(es.skip(i as int), key@),
                    decreases entries@.len() - i,
                {
                    assert(es.skip(i as int).drop_first() =~= es.skip(i + 1));
                    if text_eq(entries[i].0.as_str(), key) {
                        return Some(&entries[i].1);
                    }
                    i = i + 1;
                }
                assert(es.skip(i as int) =~= Seq::empty());
                None
            },
            _ => None,
        }
    }
}

/// Types that can be read from a JSON value.
pub trait FromJson: View + Sized {
    /// What `from_json` yields on a JSON value; `None` where the value's
    /// shape or kind does not fit the type.
    spec fn decoded(j: JsonView) -> Option<Self::V>;

    fn from_json(j: &Json) -> (r: Option<Self>)
        ensures
            opt_view(r) == Self::decoded(j@),
    ;
}

/// Types that can be written as a JSON value.
pub trait ToJson: View + Sized {
    /// The JSON value that `to_json` builds.
    spec fn encoded(v: Self::V) -> JsonView;

    fn to_json(&self) -> (r: Json)
        ensures
            r@ == Self::encoded(self@),
    ;
}

impl FromJson for bool {
    open spec fn decoded(j: JsonView) -> Option<bool> {
        match j {
            JsonView::Bool(b) => Some(b),
            _ => None,
        }
    }

    fn from_json(j: &Json) -> (r: Option<bool>) {
        match j {
            Json::Bool(b) => Some(*b),
            _ => None,
        }
    }
}

impl ToJson for bool {
    open spec fn encoded(v: bool) -> JsonView {
        JsonView::Bool(v)
    }

    fn to_json(&self) -> (r: Json) {
        Json::Bool(*self)
    }
}

/// An unsigned integer is read only where it fits the target type: a larger
/// one is refused, not cut down to its low bits.
impl FromJson for u8 {
    open spec fn decoded(j: JsonView) -> Option<u8> {
        match j {
            JsonView::UInt(n) => if n <= u8::MAX {
                Some(n as u8)
            } else {
                None
            },
            _ => None,
        }
    }

    fn from_json(j: &Json) -> (r: Option<u8>) {
        match j {
            Json::UInt(n) => if *n <= u8::MAX as u64 {
                Some(*n as u8)
            } else {
                None
            },
            _ => None,
        }
    }
}

impl ToJson for u8 {
    open spec fn encoded(v: u8) -> JsonView {
        JsonView::UInt(v as u64)
    }

    fn to_json(&self) -> (r: Json) {
        Json::UInt(*self as u64)
    }
}

impl FromJson for u16 {
    open spec fn decoded(j: JsonView) -> Option<u16> {
        match j {
            JsonView::UInt(n) => if n <= u16::MAX {
                Some(n as u16)
            } else {
                None
            },
            _ => None,
        }
    }

    fn from_json(j: &Json) -> (r: Option<u16>) {
        match j {
            Json::UInt(n) => if *n <= u16::MAX as u64 {
                Some(*n as u16)
            } else {
                None
            },
            _ => None,
        }
    }
}

impl ToJson for u16 {
    open spec fn encoded(v: u16) -> JsonView {
        JsonView::UInt(v as u64)
    }

    fn to_json(&self) -> (r: Json) {
        Json::UInt(*self as u64)
    }
}

impl FromJson for Real32 {
    open spec fn decoded(j: JsonView) -> Option<Real32> {
        match j {
            JsonView::Float(x) => Some(x),
            _ => None,
        }
    }

    fn from_json(j: &Json) -> (r: Option<Real32>) {
        match j {
            Json::Float(x) => Some(*x),
            _ => None,
        }
    }
}

impl ToJson for Real32 {
    open spec fn encoded(v: Real32) -> JsonView {
        JsonView::Float(v)
    }

    fn to_json(&self) -> (r: Json) {
        Json::Float(*self)
    }
}

impl FromJson for String {
    open spec fn decoded(j: JsonView) -> Option<Seq<char>> {
        match j {
            JsonView::Str(s) => Some(s),
            _ => None,
        }
    }

    fn from_json(j: &Json) -> (r: Option<String>) {
        match j {
            Json::Str(s) => Some(s.clone()),
            _ => None,
        }
    }
}

impl ToJson for String {
    open spec fn encoded(v: Seq<char>) -> JsonView {
        JsonView::Str(v)
    }

    fn to_json(&self) -> (r: Json) {
        Json::Str(self.clone())
    }
}

/// A pair is a JSON array of exactly two values.
impl<T: FromJson, U: FromJson> FromJson for (T, U) {
    open spec fn decoded(j: JsonView) -> Option<(T::V, U::V)> {
        match j {
            JsonView::Array(s) => if s.len() == 2 {
                match (T::decoded(s[0]), U::decoded(s[1])) {
                    (Some(a), Some(b)) => Some((a, b)),
                    _ => None,
                }
            } else {
                None
            },
            _ => None,
        }
    }

    fn from_json(j: &Json) -> (r: Option<(T, U)>) {
        proof {
            reveal_with_fuel(<Json as View>::view, 2);
        }
        match j {
            Json::Array(v) => {
                if v.len() != 2 {
                    return None;
                }
                let a = T::from_json(&v[0]);
                let b = U::from_json(&v[1]);
                match (a, b) {
                    (Some(a), Some(b)) => Some((a, b)),
                    _ => None,
                }
            },
            _ => None,
        }
    }
}

impl<T: ToJson, U: ToJson> ToJson for (T, U) {
    open spec fn encoded(v: (T::V, U::V)) -> JsonView {
        JsonView::Array(seq![T::encoded(v.0), U::encoded(v.1)])
    }

    fn to_json(&self) -> (r: Json) {
        let r = Json::Array(vec![self.0.to_json(), self.1.to_json()]);
        proof {
            reveal_with_fuel(<Json as View>::view, 2);
            assert(r@->Array_0 =~= seq![T::encoded(self@.0), U::encoded(self@.1)]);
        }
        r
    }
}

/// What a field of an object reads as: `None` where the object has no entry
/// under `key` or where the entry's value does not fit `T`.
pub open spec fn field<T: FromJson>(j: JsonView, key: Seq<char>) -> Option<T::V> {
    match j.get(key) {
        Some(v) => T::decoded(v),
        None => None,
    }
}

/// Reads the field `key` of an object as a `T`.
pub fn find_from_json<T: FromJson>(j: &Json, key: &str) -> (r: Option<T>)
    ensures
        opt_view(r) == field::<T>(j@, key@),
{
    match j.get(key) {
        Some(v) => T::from_json(v),
        None => None,
    }
}

/// The views of the entries of an object.
pub open spec fn entry_views(entries: Seq<(String, Json)>) -> Seq<(Seq<char>, JsonView)> {
    entries.map_values(|e: (String, Json)| (e.0@, e.1@))
}

/// The view of an object is made of the views of its entries.
pub proof fn lemma_object_view(entries: Vec<(String, Json)>)
    ensures
        Json::Object(entries)@ == JsonView::Object(entry_views(entries@)),
{
    reveal_with_fuel(<Json as View>::view, 2);
    assert(Json::Object(entries)@->Object_0 =~= entry_views(entries@));
}

/// Looking a key up in two runs of entries put together finds it in the
/// first run where it is there, and in the second otherwise.
pub proof fn lemma_lookup_concat(a: Seq<(Seq<char>, JsonView)>, b: Seq<(Seq<char>, JsonView)>, key: Seq<char>)
    ensures
        lookup(a + b, key) == (if lookup(a, key) is Some {
            lookup(a, key)
        } else {
            lookup(b, key)
        }),
    decreases a.len(),
{
    if a.len() == 0 {
        assert(a + b =~= b);
    } else {
        assert((a + b).drop_first() =~= a.drop_first() + b);
        lemma_lookup_concat(a.drop_first(), b, key);
    }
}

/// A boolean written as JSON reads back unchanged.
pub proof fn lemma_bool_round_trip(x: bool)
    ensures
        <bool as FromJson>::decoded(<bool as ToJson>::encoded(x)) == Some(x),
{
}

/// Every `u8`, from 0 to 255, written as JSON reads back unchanged.
pub proof fn lemma_u8_round_trip(x: u8)
    ensures
        <u8 as FromJson>::decoded(<u8 as ToJson>::encoded(x)) == Some(x),
{
}

/// Every `u16`, from 0 to 65535, written as JSON reads back unchanged.
pub proof fn lemma_u16_round_trip(x: u16)
    ensures
        <u16 as FromJson>::decoded(<u16 as ToJson>::encoded(x)) == Some(x),
{
}

/// A single-precision number written as JSON reads back with the same bits.
pub proof fn lemma_real32_round_trip(x: Real32)
    ensures
        <Real32 as FromJson>::decoded(<Real32 as ToJson>::encoded(x)) == Some(x),
{
}

/// A string written as JSON reads back unchanged.
pub proof fn lemma_string_round_trip(x: Seq<char>)
    ensures
        <String as FromJson>::decoded(<String as ToJson>::encoded(x)) == Some(x),
{
}

/// A pair written as JSON reads back unchanged wherever each of its two
/// parts does.
pub proof fn lemma_pair_round_trip<T: FromJson + ToJson, U: FromJson + ToJson>(a: T::V, b: U::V)
    requires
        T::decoded(T::encoded(a)) == Some(a),
        U::decoded(U::encoded(b)) == Some(b),
    ensures
        <(T, U) as FromJson>::decoded(<(T, U) as ToJson>::encoded((a, b))) == Some((a, b)),
{
}

} // verus!
