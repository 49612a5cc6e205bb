//! The records and closed vocabularies of the lights endpoints.
use vstd::prelude::*;

use crate::bridge::Request;
use crate::json_helper::{
    FromJson, Json, JsonView, Real32, ToJson, entry_views, field, find_from_json, lemma_lookup_concat,
    lemma_object_view, lemma_pair_round_trip, lemma_text_le_total, lemma_text_le_transitive, lookup, opt_view, text_eq,
    text_le, text_ordered,
};

verus! {

/// The lights endpoints of the bridge's REST API. Each operation gives the
/// request to send; the bridge's answer is read with
/// [`receive`](crate::bridge::receive), or
/// [`receive_lights`](crate::bridge::receive_lights) for the list of all
/// lights.
pub trait Light {
    /// `GET /lights`: every light, by id.
    fn get_all(&self) -> Request;

    /// `GET /lights/<id>`: one light's [`Attributes`].
    fn get_attributes(&self, id: &str) -> Request;

    /// `PUT /lights/<id>/state`: sets the fields of `state` that are set;
    /// answered with a [`Status`](crate::rest_api::Status).
    fn set_state(&self, id: &str, state: State) -> Request;

    /// `PUT /lights/<id>`: gives the light a new name; answered with a
    /// [`Status`](crate::rest_api::Status).
    fn rename(&self, id: &str, name: &str) -> Request;
}

/// A light's state: what can be set on it and what the bridge reports of it.
///
/// Every field is on its own either set or unset. An unset field is not
/// written, and a field that a read value lacks stays unset. `reachable`
/// and `colormode` come from the bridge only; `transitiontime` is mostly
/// written. `xy` holds single-precision CIE coordinates.
#[derive(Clone, Copy, Debug, PartialEq)]
pub struct State {
    pub on: Option<bool>,
    pub bri: Option<u8>,
    pub hue: Option<u16>,
    pub sat: Option<u8>,
    pub xy: Option<(Real32, Real32)>,
    pub ct: Option<u16>,
    pub alert: Option<Alert>,
    pub effect: Option<Effect>,
    pub colormode: Option<ColorMode>,
    pub reachable: Option<bool>,
    pub transitiontime: Option<u16>,
}

impl View for State {
    type V = State;

    open spec fn view(&self) -> State {
        *self
    }
}

/// The state with no field set.
pub open spec fn unset_state() -> State {
    State {
        on: None,
        bri: None,
        hue: None,
        sat: None,
        xy: None,
        ct: None,
        alert: None,
        effect: None,
        colormode: None,
        reachable: None,
        transitiontime: None,
    }
}

impl Default for State {
    fn default() -> (r: State)
        ensures
            r == unset_state(),
    {
        State {
            on: None,
            bri: None,
            hue: None,
            sat: None,
            xy: None,
            ct: None,
            alert: None,
            effect: None,
            colormode: None,
            reachable: None,
            transitiontime: None,
        }
    }
}

/// The value that a field is written as, where it is set.
pub open spec fn written<T: ToJson>(v: Option<T::V>) -> Option<JsonView> {
    match v {
        Some(x) => Some(T::encoded(x)),
        None => None,
    }
}

/// The entries that one field adds to an encoded state: one, under the
/// field's name, where the field is set; none where it is not.
pub open spec fn slot<T: ToJson>(name: Seq<char>, v: Option<T::V>) -> Seq<(Seq<char>, JsonView)> {
    match v {
        Some(x) => seq![(name, T::encoded(x))],
        None => Seq::empty(),
    }
}

/// Whether `k` names a field of [`State`].
pub open spec fn is_state_field(k: Seq<char>) -> bool {
    ||| k == "on"@
    ||| k == "bri"@
    ||| k == "hue"@
    ||| k == "sat"@
    ||| k == "xy"@
    ||| k == "ct"@
    ||| k == "alert"@
    ||| k == "effect"@
    ||| k == "colormode"@
    ||| k == "reachable"@
    ||| k == "transitiontime"@
}

impl State {
    /// The entries of the encoded state, field by field in a fixed order.
    pub open spec fn entries(self) -> Seq<(Seq<char>, JsonView)> {
        slot::<bool>("on"@, self.on) + slot::<u8>("bri"@, self.bri) + slot::<u16>("hue"@, self.hue)
            + slot::<u8>("sat"@, self.sat) + slot::<(Real32, Real32)>("xy"@, self.xy) + slot::<
            u16,
        >("ct"@, self.ct) + slot::<Alert>("alert"@, self.alert) + slot::<Effect>(
            "effect"@,
            self.effect,
        ) + slot::<ColorMode>("colormode"@, self.colormode) + slot::<bool>(
            "reachable"@,
            self.reachable,
        ) + slot::<u16>("transitiontime"@, self.transitiontime)
    }

    /// Whether `k` is the name of a field that is set.
    pub open spec fn is_set(self, k: Seq<char>) -> bool {
        ||| k == "on"@ && self.on is Some
        ||| k == "bri"@ && self.bri is Some
        ||| k == "hue"@ && self.hue is Some
        ||| k == "sat"@ && self.sat is Some
        ||| k == "xy"@ && self.xy is Some
        ||| k == "ct"@ && self.ct is Some
        ||| k == "alert"@ && self.alert is Some
        ||| k == "effect"@ && self.effect is Some
        ||| k == "colormode"@ && self.colormode is Some
        ||| k == "reachable"@ && self.reachable is Some
        ||| k == "transitiontime"@ && self.transitiontime is Some
    }

    /// The names of the fields that are set.
    pub open spec fn set_fields(self) -> Set<Seq<char>> {
        Set::new(|k: Seq<char>| self.is_set(k))
    }
}

/// Adds the entry of one field to `entries` where the field is set.
fn push_field<T: ToJson>(entries: &mut Vec<(String, Json)>, name: &str, v: &Option<T>)
    ensures
        entry_views(final(entries)@) == entry_views(old(entries)@) + slot::<T>(name@, opt_view(*v)),
{
    match v {
        Some(x) => {
            entries.push((String::from_str(name), x.to_json()));
        },
        None => {},
    }
    assert(entry_views(entries@) =~= entry_views(old(entries)@) + slot::<T>(name@, opt_view(*v)));
}

impl ToJson for State {
    open spec fn encoded(v: State) -> JsonView {
        JsonView::Object(v.entries())
    }

    fn to_json(&self) -> (r: Json) {
        let mut entries: Vec<(String, Json)> = Vec::new();
        assert(entry_views(entries@) =~= Seq::empty());
        push_field(&mut entries, "on", &self.on);
        push_field(&mut entries, "bri", &self.bri);
        push_field(&mut entries, "hue", &self.hue);
        push_field(&mut entries, "sat", &self.sat);
        push_field(&mut entries, "xy", &self.xy);
        push_field(&mut entries, "ct", &self.ct);
        push_field(&mut entries, "alert", &self.alert);
        push_field(&mut entries, "effect", &self.effect);
        push_field(&mut entries, "colormode", &self.colormode);
        push_field(&mut entries, "reachable", &self.reachable);
        push_field(&mut entries, "transitiontime", &self.transitiontime);
        proof {
            lemma_object_view(entries);
        }
        Json::Object(entries)
    }
}

/// A state is read from an object field by field. A field whose entry is
/// missing, or whose value does not fit the field's type, stays unset; this
/// never refuses the whole state.
impl FromJson for State {
    open spec fn decoded(j: JsonView) -> Option<State> {
        match j {
            JsonView::Object(_) => Some(
                State {
                    on: field::<bool>(j, "on"@),
                    bri: field::<u8>(j, "bri"@),
                    hue: field::<u16>(j, "hue"@),
                    sat: field::<u8>(j, "sat"@),
                    xy: field::<(Real32, Real32)>(j, "xy"@),
                    ct: field::<u16>(j, "ct"@),
                    alert: field::<Alert>(j, "alert"@),
                    effect: field::<Effect>(j, "effect"@),
                    colormode: field::<ColorMode>(j, "colormode"@),
                    reachable: field::<bool>(j, "reachable"@),
                    transitiontime: field::<u16>(j, "transitiontime"@),
                },
            ),
            _ => None,
        }
    }

    fn from_json(j: &Json) -> (r: Option<State>) {
        match j {
            Json::Object(_) => Some(
                State {
                    on: find_from_json(j, "on"),
                    bri: find_from_json(j, "bri"),
                    hue: find_from_json(j, "hue"),
                    sat: find_from_json(j, "sat"),
                    xy: find_from_json(j, "xy"),
                    ct: find_from_json(j, "ct"),
                    alert: find_from_json(j, "alert"),
                    effect: find_from_json(j, "effect"),
                    colormode: find_from_json(j, "colormode"),
                    reachable: find_from_json(j, "reachable"),
                    transitiontime: find_from_json(j, "transitiontime"),
                },
            ),
            _ => None,
        }
    }
}

/// Which color representation a light is using.
#[derive(Clone, Copy, Debug, PartialEq, Eq, Structural)]
pub enum ColorMode {
    HueSat,
    CieXy,
    ColorTemperature,
}

impl View for ColorMode {
    type V = ColorMode;

    open spec fn view(&self) -> ColorMode {
        *self
    }
}

impl ColorMode {
    /// The token that stands for the mode on the wire.
    pub open spec fn wire(self) -> Seq<char> {
        match self {
            ColorMode::HueSat => "hs"@,
            ColorMode::CieXy => "xy"@,
            ColorMode::ColorTemperature => "ct"@,
        }
    }
}

impl ToJson for ColorMode {
    open spec fn encoded(v: ColorMode) -> JsonView {
        JsonView::Str(v.wire())
    }

    fn to_json(&self) -> (r: Json) {
        let token = match self {
            ColorMode::HueSat => "hs",
            ColorMode::CieXy => "xy",
            ColorMode::ColorTemperature => "ct",
        };
        Json::Str(String::from_str(token))
    }
}

impl FromJson for ColorMode {
    open spec fn decoded(j: JsonView) -> Option<ColorMode> {
        match j {
            JsonView::Str(s) => if s == "hs"@ {
                Some(ColorMode::HueSat)
            } else if s == "xy"@ {
                Some(ColorMode::CieXy)
            } else if s == "ct"@ {
                Some(ColorMode::ColorTemperature)
            } else {
                None
            },
            _ => None,
        }
    }

    fn from_json(j: &Json) -> (r: Option<ColorMode>) {
        match j {
            Json::Str(s) => if text_eq(s.as_str(), "hs") {
                Some(ColorMode::HueSat)
            } else if text_eq(s.as_str(), "xy") {
                Some(ColorMode::CieXy)
            } else if text_eq(s.as_str(), "ct") {
                Some(ColorMode::ColorTemperature)
            } else {
                None
            },
            _ => None,
        }
    }
}

/// A light's alert effect.
#[derive(Clone, Copy, Debug, PartialEq, Eq, Structural)]
pub enum Alert {
    NoAlert,
    Select,
    LSelect,
}

impl View for Alert {
    type V = Alert;

    open spec fn view(&self) -> Alert {
        *self
    }
}

impl Alert {
    /// The token that stands for the alert on the wire.
    pub open spec fn wire(self) -> Seq<char> {
        match self {
            Alert::NoAlert => "none"@,
            Alert::Select => "select"@,
            Alert::LSelect => "lselect"@,
        }
    }
}

impl ToJson for Alert {
    open spec fn encoded(v: Alert) -> JsonView {
        JsonView::Str(v.wire())
    }

    fn to_json(&self) -> (r: Json) {
        let token = match self {
            Alert::NoAlert => "none",
            Alert::Select => "select",
            Alert::LSelect => "lselect",
        };
        Json::Str(String::from_str(token))
    }
}

impl FromJson for Alert {
    open spec fn decoded(j: JsonView) -> Option<Alert> {
        match j {
            JsonView::Str(s) => if s == "none"@ {
                Some(Alert::NoAlert)
            } else if s == "select"@ {
                Some(Alert::Select)
            } else if s == "lselect"@ {
                Some(Alert::LSelect)
            } else {
                None
            },
            _ => None,
        }
    }

    fn from_json(j: &Json) -> (r: Option<Alert>) {
        match j {
            Json::Str(s) => if text_eq(s.as_str(), "none") {
                Some(Alert::NoAlert)
            } else if text_eq(s.as_str(), "select") {
                Some(Alert::Select)
            } else if text_eq(s.as_str(), "lselect") {
                Some(Alert::LSelect)
            } else {
                None
            },
            _ => None,
        }
    }
}

/// A light's dynamic effect.
#[derive(Clone, Copy, Debug, PartialEq, Eq, Structural)]
pub enum Effect {
    NoEffect,
    ColorLoop,
}

impl View for Effect {
    type V = Effect;

    open spec fn view(&self) -> Effect {
        *self
    }
}

impl Effect {
    /// The token that stands for the effect on the wire.
    pub open spec fn wire(self) -> Seq<char> {
        match self {
            Effect::NoEffect => "none"@,
            Effect::ColorLoop => "colorloop"@,
        }
    }
}

impl ToJson for Effect {
    open spec fn encoded(v: Effect) -> JsonView {
        JsonView::Str(v.wire())
    }

    fn to_json(&self) -> (r: Json) {
        let token = match self {
            Effect::NoEffect => "none",
            Effect::ColorLoop => "colorloop",
        };
        Json::Str(String::from_str(token))
    }
}

impl FromJson for Effect {
    open spec fn decoded(j: JsonView) -> Option<Effect> {
        match j {
            JsonView::Str(s) => if s == "none"@ {
                Some(Effect::NoEffect)
            } else if s == "colorloop"@ {
                Some(Effect::ColorLoop)
            } else {
                None
            },
            _ => None,
        }
    }

    fn from_json(j: &Json) -> (r: Option<Effect>) {
        match j {
            Json::Str(s) => if text_eq(s.as_str(), "none") {
                Some(Effect::NoEffect)
            } else if text_eq(s.as_str(), "colorloop") {
                Some(Effect::ColorLoop)
            } else {
                None
            },
            _ => None,
        }
    }
}

/// What the bridge says of one light.
#[derive(Clone, Debug)]
pub struct Attributes {
    pub state: State,
    pub type_: String,
    pub name: String,
    pub modelid: String,
    pub swversion: String,
    pub pointsymbol: PointSymbol,
}

/// The view of [`Attributes`].
pub struct AttributesView {
    pub state: State,
    pub type_: Seq<char>,
    pub name: Seq<char>,
    pub modelid: Seq<char>,
    pub swversion: Seq<char>,
    pub pointsymbol: PointSymbol,
}

impl View for Attributes {
    type V = AttributesView;

    open spec fn view(&self) -> AttributesView {
        AttributesView {
            state: self.state,
            type_: self.type_@,
            name: self.name@,
            modelid: self.modelid@,
            swversion: self.swversion@,
            pointsymbol: self.pointsymbol,
        }
    }
}

/// Reserved by the bridge; it carries nothing yet.
#[derive(Clone, Copy, Debug, PartialEq, Eq, Structural)]
pub struct PointSymbol;

impl View for PointSymbol {
    type V = PointSymbol;

    open spec fn view(&self) -> PointSymbol {
        *self
    }
}

/// Attributes are read from an object whose `state`, `type`, `name`,
/// `modelid` and `swversion` entries are all present and of the right kind;
/// where one of them is not, nothing is read. The `pointsymbol` entry is not
/// read.
impl FromJson for Attributes {
    open spec fn decoded(j: JsonView) -> Option<AttributesView> {
        match j {
            JsonView::Object(_) => match (
                field::<State>(j, "state"@),
                field::<String>(j, "type"@),
                field::<String>(j, "name"@),
                field::<String>(j, "modelid"@),
                field::<String>(j, "swversion"@),
            ) {
                (Some(state), Some(type_), Some(name), Some(modelid), Some(swversion)) => Some(
                    AttributesView { state, type_, name, modelid, swversion, pointsymbol: PointSymbol },
                ),
                _ => None,
            },
            _ => None,
        }
    }

    fn from_json(j: &Json) -> (r: Option<Attributes>) {
        match j {
            Json::Object(_) => {
                let state: Option<State> = find_from_json(j, "state");
                let type_: Option<String> = find_from_json(j, "type");
                let name: Option<String> = find_from_json(j, "name");
                let modelid: Option<String> = find_from_json(j, "modelid");
                let swversion: Option<String> = find_from_json(j, "swversion");
                match (state, type_, name, modelid, swversion) {
                    (Some(state), Some(type_), Some(name), Some(modelid), Some(swversion)) => Some(
                        Attributes { state, type_, name, modelid, swversion, pointsymbol: PointSymbol },
                    ),
                    _ => None,
                }
            },
            _ => None,
        }
    }
}

/// The views of a list of lights.
pub open spec fn lights_view(lights: Seq<(String, Attributes)>) -> Seq<(Seq<char>, AttributesView)> {
    lights.map_values(|e: (String, Attributes)| (e.0@, e.1@))
}

/// Whether a list of lights is in the order of their ids.
pub open spec fn sorted_by_id(lights: Seq<(Seq<char>, AttributesView)>) -> bool {
    forall|i: int, k: int| 0 <= i < k < lights.len() ==> text_le(lights[i].0, lights[k].0)
}

/// `lights` with `light` put in after every light whose id comes no later
/// than its own, and before the rest.
pub open spec fn insert_by_id(
    lights: Seq<(Seq<char>, AttributesView)>,
    light: (Seq<char>, AttributesView),
) -> Seq<(Seq<char>, AttributesView)>
    decreases lights.len(),
{
    if lights.len() == 0 {
        seq![light]
    } else if text_le(lights[0].0, light.0) {
        seq![lights[0]] + insert_by_id(lights.drop_first(), light)
    } else {
        seq![light] + lights
    }
}

/// `lights` sorted by id, one light after the other into the sorted list of
/// those before it. Lights with equal ids keep their order.
pub open spec fn sort_by_id(lights: Seq<(Seq<char>, AttributesView)>) -> Seq<
    (Seq<char>, AttributesView),
>
    decreases lights.len(),
{
    if lights.len() == 0 {
        lights
    } else {
        insert_by_id(sort_by_id(lights.drop_last()), lights.last())
    }
}

/// Putting a light in at the first place whose light has an id that comes
/// after its own is [`insert_by_id`].
proof fn lemma_insert_by_id(
    lights: Seq<(Seq<char>, AttributesView)>,
    light: (Seq<char>, AttributesView),
    pos: int,
)
    requires
        0 <= pos <= lights.len(),
        forall|k: int| 0 <= k < pos ==> text_le(#[trigger] lights[k].0, light.0),
        pos < lights.len() ==> !text_le(lights[pos].0, light.0),
    ensures
        insert_by_id(lights, light) == lights.insert(pos, light),
    decreases pos,
{
    if lights.len() == 0 {
        assert(lights.insert(pos, light) =~= seq![light]);
    } else if pos == 0 {
        assert(lights.insert(pos, light) =~= seq![light] + lights);
    } else {
        let rest = lights.drop_first();
        assert forall|k: int| 0 <= k < pos - 1 implies text_le(#[trigger] rest[k].0, light.0) by {
            assert(rest[k] == lights[k + 1]);
        }
        lemma_insert_by_id(rest, light, pos - 1);
        assert(seq![lights[0]] + rest.insert(pos - 1, light) =~= lights.insert(pos, light));
    }
}

/// The lights that an object from light id to attributes describes, in the
/// object's order: `None` where the object is no object, or where one of its
/// values does not read as [`Attributes`].
pub open spec fn lights_of(j: JsonView) -> Option<Seq<(Seq<char>, AttributesView)>> {
    match j {
        JsonView::Object(entries) => if forall|i: int|
            0 <= i < entries.len() ==> (#[trigger] Attributes::decoded(entries[i].1)) is Some {
            Some(
                entries.map_values(
                    |e: (Seq<char>, JsonView)| (e.0, Attributes::decoded(e.1)->Some_0),
                ),
            )
        } else {
            None
        },
        _ => None,
    }
}

/// Reads the list of all lights: the lights of an object from light id to
/// attributes, sorted by id; lights with equal ids, which only an object
/// that repeats a key has, keep the object's order. Where one light does not
/// read, none is read.
pub fn decode_lights(j: &Json) -> (r: Option<Vec<(String, Attributes)>>)
    ensures
        r is Some <==> lights_of(j@) is Some,
        r matches Some(lights) ==> lights_view(lights@) == sort_by_id(lights_of(j@)->Some_0),
        r matches Some(lights) ==> {
            &&& lights_view(lights@).to_multiset() == lights_of(j@)->Some_0.to_multiset()
            &&& sorted_by_id(lights_view(lights@))
        },
{
    match j {
        Json::Object(entries) => {
            proof {
                lemma_object_view(*entries);
            }
            let ghost es = entry_views(entries@);
            let ghost all = es.map_values(
                |e: (Seq<char>, JsonView)| (e.0, Attributes::decoded(e.1)->Some_0),
            );
            let mut out: Vec<(String, Attributes)> = Vec::new();
            let mut i: usize = 0;
            assert(lights_view(out@) =~= all.take(0));
            assert(sort_by_id(all.take(0)) == all.take(0));
            while i < entries.len()
                invariant
                    j@ == JsonView::Object(es),
                    es == entry_views(entries@),
                    all == es.map_values(
                        |e: (Seq<char>, JsonView)| (e.0, Attributes::decoded(e.1)->Some_0),
                    ),
                    i <= entries@.len(),
                    forall|k: int| 0 <= k < i ==> (#[trigger] Attributes::decoded(es[k].1)) is Some,
                    lights_view(out@).to_multiset() == all.take(i as int).to_multiset(),
                    lights_view(out@) == sort_by_id(all.take(i as int)),
                    sorted_by_id(lights_view(out@)),
                decreases entries@.len() - i,
            {
                let attrs = match Attributes::from_json(&entries[i].1) {
                    Some(a) => a,
                    None => {
                        assert(es[i as int].1 == entries@[i as int].1@);
                        assert(!(Attributes::decoded(es[i as int].1) is Some));
                        return None;
                    },
                };
                let id = entries[i].0.clone();
                let ghost item = (id@, attrs@);
                assert(item == all[i as int]);
                let ghost before = lights_view(out@);
                let mut pos: usize = 0;
                while pos < out.len() && text_ordered(out[pos].0.as_str(), id.as_str())
                    invariant
                        before == lights_view(out@),
                        pos <= out@.len(),
                        forall|k: int| 0 <= k < pos ==> text_le(#[trigger] before[k].0, id@),
                    decreases out@.len() - pos,
                {
                    pos = pos + 1;
                }
                proof {
                    if pos < out@.len() {
                        lemma_text_le_total(before[pos as int].0, id@);
                    }
                    assert forall|k: int| pos <= k < before.len() implies text_le(
                        id@,
                        #[trigger] before[k].0,
                    ) by {
                        if k > pos {
                            assert(text_le(before[pos as int].0, before[k].0));
                            lemma_text_le_transitive(id@, before[pos as int].0, before[k].0);
                        }
                    }
                }
                out.insert(pos, (id, attrs));
                proof {
                    let after = lights_view(out@);
                    assert(after =~= before.insert(pos as int, item));
                    before.to_multiset_ensures();
                    vstd::seq_lib::to_multiset_insert(before, pos as int, item);
                    assert(all.take(i + 1) =~= all.take(i as int).push(item));
                    assert(all.take(i + 1).drop_last() =~= all.take(i as int));
                    lemma_insert_by_id(before, item, pos as int);
                    vstd::seq_lib::to_multiset_build(all.take(i as int), item);
                    assert forall|a: int, b: int| 0 <= a < b < after.len() implies text_le(
                        after[a].0,
                        after[b].0,
                    ) by {
                        if b < pos {
                        } else if b == pos {
                        } else if a < pos {
                            lemma_text_le_transitive(after[a].0, id@, after[b].0);
                        } else if a == pos {
                        } else {
                        }
                    }
                }
                i = i + 1;
            }
            assert(all.take(i as int) =~= all);
            Some(out)
        },
        _ => None,
    }
}

/// A field's entries hold what the field is written as under its name, and
/// nothing under any other key.
proof fn lemma_lookup_slot<T: ToJson>(name: Seq<char>, v: Option<T::V>, k: Seq<char>)
    ensures
        lookup(slot::<T>(name, v), k) == (if name == k {
            written::<T>(v)
        } else {
            None
        }),
{
    reveal_with_fuel(lookup, 2);
    if v is Some {
        assert(slot::<T>(name, v).drop_first() =~= Seq::empty());
    }
}

/// A state with no field set is written as the empty object.
pub proof fn lemma_sparse_encode()
    ensures
        State::encoded(unset_state()) == JsonView::Object(Seq::empty()),
{
    assert(unset_state().entries() =~= Seq::empty());
}

/// An encoded state has an entry under `k` exactly where `k` names a field
/// that is set.
proof fn lemma_field_gating_at(s: State, k: Seq<char>)
    ensures
        lookup(s.entries(), k) is Some <==> s.is_set(k),
{
    lemma_state_field_names();
    lemma_lookup_entries(s, k);
}

/// The names of the fields of a state differ from one another.
proof fn lemma_state_field_names()
    ensures
        "on"@.len() == 2 && "on"@[0] == 'o',
        "bri"@.len() == 3 && "bri"@[0] == 'b',
        "hue"@.len() == 3 && "hue"@[0] == 'h',
        "sat"@.len() == 3 && "sat"@[0] == 's',
        "xy"@.len() == 2 && "xy"@[0] == 'x',
        "ct"@.len() == 2 && "ct"@[0] == 'c',
        "alert"@.len() == 5,
        "effect"@.len() == 6,
        "colormode"@.len() == 9 && "colormode"@[0] == 'c',
        "reachable"@.len() == 9 && "reachable"@[0] == 'r',
        "transitiontime"@.len() == 14,
{
    reveal_strlit("on");
    reveal_strlit("bri");
    reveal_strlit("hue");
    reveal_strlit("sat");
    reveal_strlit("xy");
    reveal_strlit("ct");
    reveal_strlit("alert");
    reveal_strlit("effect");
    reveal_strlit("colormode");
    reveal_strlit("reachable");
    reveal_strlit("transitiontime");
}

/// Looking up a field's name among the entries of an encoded state finds
/// what that field is written as; any other key is not found.
proof fn lemma_lookup_entries(s: State, k: Seq<char>)
    ensures
        lookup(s.entries(), k) == (if k == "on"@ {
            written::<bool>(s.on)
        } else if k == "bri"@ {
            written::<u8>(s.bri)
        } else if k == "hue"@ {
            written::<u16>(s.hue)
        } else if k == "sat"@ {
            written::<u8>(s.sat)
        } else if k == "xy"@ {
            written::<(Real32, Real32)>(s.xy)
        } else if k == "ct"@ {
            written::<u16>(s.ct)
        } else if k == "alert"@ {
            written::<Alert>(s.alert)
        } else if k == "effect"@ {
            written::<Effect>(s.effect)
        } else if k == "colormode"@ {
            written::<ColorMode>(s.colormode)
        } else if k == "reachable"@ {
            written::<bool>(s.reachable)
        } else if k == "transitiontime"@ {
            written::<u16>(s.transitiontime)
        } else {
            None
        }),
{
    lemma_state_field_names();
    let s1 = slot::<bool>("on"@, s.on);
    let s2 = slot::<u8>("bri"@, s.bri);
    let s3 = slot::<u16>("hue"@, s.hue);
    let s4 = slot::<u8>("sat"@, s.sat);
    let s5 = slot::<(Real32, Real32)>("xy"@, s.xy);
    let s6 = slot::<u16>("ct"@, s.ct);
    let s7 = slot::<Alert>("alert"@, s.alert);
    let s8 = slot::<Effect>("effect"@, s.effect);
    let s9 = slot::<ColorMode>("colormode"@, s.colormode);
    let s10 = slot::<bool>("reachable"@, s.reachable);
    let s11 = slot::<u16>("transitiontime"@, s.transitiontime);
    let run2 = s1 + s2;
    let run3 = run2 + s3;
    let run4 = run3 + s4;
    let run5 = run4 + s5;
    let run6 = run5 + s6;
    let run7 = run6 + s7;
    let run8 = run7 + s8;
    let run9 = run8 + s9;
    let run10 = run9 + s10;
    lemma_lookup_slot::<bool>("on"@, s.on, k);
    lemma_lookup_slot::<u8>("bri"@, s.bri, k);
    lemma_lookup_slot::<u16>("hue"@, s.hue, k);
    lemma_lookup_slot::<u8>("sat"@, s.sat, k);
    lemma_lookup_slot::<(Real32, Real32)>("xy"@, s.xy, k);
    lemma_lookup_slot::<u16>("ct"@, s.ct, k);
    lemma_lookup_slot::<Alert>("alert"@, s.alert, k);
    lemma_lookup_slot::<Effect>("effect"@, s.effect, k);
    lemma_lookup_slot::<ColorMode>("colormode"@, s.colormode, k);
    lemma_lookup_slot::<bool>("reachable"@, s.reachable, k);
    lemma_lookup_slot::<u16>("transitiontime"@, s.transitiontime, k);
    lemma_lookup_concat(s1, s2, k);
    lemma_lookup_concat(run2, s3, k);
    lemma_lookup_concat(run3, s4, k);
    lemma_lookup_concat(run4, s5, k);
    lemma_lookup_concat(run5, s6, k);
    lemma_lookup_concat(run6, s7, k);
    lemma_lookup_concat(run7, s8, k);
    lemma_lookup_concat(run8, s9, k);
    lemma_lookup_concat(run9, s10, k);
    lemma_lookup_concat(run10, s11, k);
}

/// A state written as JSON reads back unchanged: every set field with its
/// value, every unset field unset.
pub proof fn lemma_state_round_trip(s: State)
    ensures
        State::decoded(State::encoded(s)) == Some(s),
{
    lemma_state_field_names();
    let j = State::encoded(s);
    assert(field::<bool>(j, "on"@) == s.on) by {
        lemma_lookup_entries(s, "on"@);
    }
    assert(field::<u8>(j, "bri"@) == s.bri) by {
        lemma_lookup_entries(s, "bri"@);
    }
    assert(field::<u16>(j, "hue"@) == s.hue) by {
        lemma_lookup_entries(s, "hue"@);
    }
    assert(field::<u8>(j, "sat"@) == s.sat) by {
        lemma_lookup_entries(s, "sat"@);
    }
    assert(field::<(Real32, Real32)>(j, "xy"@) == s.xy) by {
        lemma_lookup_entries(s, "xy"@);
        if let Some(xy) = s.xy {
            lemma_pair_round_trip::<Real32, Real32>(xy.0, xy.1);
        }
    }
    assert(field::<u16>(j, "ct"@) == s.ct) by {
        lemma_lookup_entries(s, "ct"@);
    }
    assert(field::<Alert>(j, "alert"@) == s.alert) by {
        lemma_lookup_entries(s, "alert"@);
        if let Some(v) = s.alert {
            lemma_alert_round_trip(v, Alert::encoded(v));
        }
    }
    assert(field::<Effect>(j, "effect"@) == s.effect) by {
        lemma_lookup_entries(s, "effect"@);
        if let Some(v) = s.effect {
            lemma_effect_round_trip(v, Effect::encoded(v));
        }
    }
    assert(field::<ColorMode>(j, "colormode"@) == s.colormode) by {
        lemma_lookup_entries(s, "colormode"@);
        if let Some(v) = s.colormode {
            lemma_color_mode_round_trip(v, ColorMode::encoded(v));
        }
    }
    assert(field::<bool>(j, "reachable"@) == s.reachable) by {
        lemma_lookup_entries(s, "reachable"@);
    }
    assert(field::<u16>(j, "transitiontime"@) == s.transitiontime) by {
        lemma_lookup_entries(s, "transitiontime"@);
    }
}

/// The keys of an encoded state are exactly the names of the fields that
/// are set.
pub proof fn lemma_field_gating(s: State)
    ensures
        State::encoded(s).keys() == s.set_fields(),
{
    assert forall|k: Seq<char>| #[trigger]
        State::encoded(s).keys().contains(k) == s.set_fields().contains(k) by {
        lemma_field_gating_at(s, k);
    }
    assert(State::encoded(s).keys() =~= s.set_fields());
}

/// The entries of an object whose keys name fields of [`State`], in their
/// order.
pub open spec fn state_entries_only(entries: Seq<(Seq<char>, JsonView)>) -> Seq<
    (Seq<char>, JsonView),
>
    decreases entries.len(),
{
    if entries.len() == 0 {
        entries
    } else if is_state_field(entries[0].0) {
        seq![entries[0]] + state_entries_only(entries.drop_first())
    } else {
        state_entries_only(entries.drop_first())
    }
}

proof fn lemma_lookup_state_entries_only(entries: Seq<(Seq<char>, JsonView)>, k: Seq<char>)
    requires
        is_state_field(k),
    ensures
        lookup(state_entries_only(entries), k) == lookup(entries, k),
    decreases entries.len(),
{
    if entries.len() > 0 {
        lemma_lookup_state_entries_only(entries.drop_first(), k);
        if is_state_field(entries[0].0) {
            let rest = state_entries_only(entries.drop_first());
            assert((seq![entries[0]] + rest).drop_first() =~= rest);
        }
    }
}

/// Entries under keys that name no field of [`State`] do not change the
/// state read from an object: it is the state read from the object without
/// them.
pub proof fn lemma_unknown_fields_ignored(entries: Seq<(Seq<char>, JsonView)>)
    ensures
        State::decoded(JsonView::Object(entries)) == State::decoded(
            JsonView::Object(state_entries_only(entries)),
        ),
{
    lemma_lookup_state_entries_only(entries, "on"@);
    lemma_lookup_state_entries_only(entries, "bri"@);
    lemma_lookup_state_entries_only(entries, "hue"@);
    lemma_lookup_state_entries_only(entries, "sat"@);
    lemma_lookup_state_entries_only(entries, "xy"@);
    lemma_lookup_state_entries_only(entries, "ct"@);
    lemma_lookup_state_entries_only(entries, "alert"@);
    lemma_lookup_state_entries_only(entries, "effect"@);
    lemma_lookup_state_entries_only(entries, "colormode"@);
    lemma_lookup_state_entries_only(entries, "reachable"@);
    lemma_lookup_state_entries_only(entries, "transitiontime"@);
}

/// Each color mode reads back from its token, and a JSON value reads as a
/// color mode exactly where it is that mode's token.
pub proof fn lemma_color_mode_round_trip(v: ColorMode, j: JsonView)
    ensures
        ColorMode::decoded(ColorMode::encoded(v)) == Some(v),
        ColorMode::decoded(j) == Some(v) <==> j == ColorMode::encoded(v),
{
    reveal_strlit("hs");
    reveal_strlit("xy");
    reveal_strlit("ct");
    assert("hs"@[0] != "xy"@[0] && "hs"@[0] != "ct"@[0] && "xy"@[0] != "ct"@[0]);
}

/// Each alert reads back from its token, and a JSON value reads as an alert
/// exactly where it is that alert's token.
pub proof fn lemma_alert_round_trip(v: Alert, j: JsonView)
    ensures
        Alert::decoded(Alert::encoded(v)) == Some(v),
        Alert::decoded(j) == Some(v) <==> j == Alert::encoded(v),
{
    reveal_strlit("none");
    reveal_strlit("select");
    reveal_strlit("lselect");
    assert("none"@[0] != "select"@[0] && "none"@[0] != "lselect"@[0] && "select"@[0]
        != "lselect"@[0]);
}

/// Each effect reads back from its token, and a JSON value reads as an
/// effect exactly where it is that effect's token.
pub proof fn lemma_effect_round_trip(v: Effect, j: JsonView)
    ensures
        Effect::decoded(Effect::encoded(v)) == Some(v),
        Effect::decoded(j) == Some(v) <==> j == Effect::encoded(v),
{
    reveal_strlit("none");
    reveal_strlit("colorloop");
    assert("none"@[0] != "colorloop"@[0]);
}

} // verus!
