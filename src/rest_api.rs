//! The bridge's REST schema: the status envelope shared by the endpoints
//! that change something, and the lights endpoints' records.
use vstd::prelude::*;

use crate::json_helper::{FromJson, Json, JsonView, entry_views, lemma_object_view, lookup, opt_view};

pub mod light;

verus! {

/// What the bridge reports for a change: whether it succeeded, and then
/// what was written, or else what went wrong.
#[derive(Clone, Debug)]
pub struct Status {
    pub success: bool,
    pub value: String,
}

/// The view of a [`Status`].
pub struct StatusView {
    pub success: bool,
    pub value: Seq<char>,
}

impl View for Status {
    type V = StatusView;

    open spec fn view(&self) -> StatusView {
        StatusView { success: self.success, value: self.value@ }
    }
}

/// The character of a decimal digit.
pub open spec fn digit(d: int) -> char {
    if d == 0 {
        '0'
    } else if d == 1 {
        '1'
    } else if d == 2 {
        '2'
    } else if d == 3 {
        '3'
    } else if d == 4 {
        '4'
    } else if d == 5 {
        '5'
    } else if d == 6 {
        '6'
    } else if d == 7 {
        '7'
    } else if d == 8 {
        '8'
    } else {
        '9'
    }
}

/// The decimal digits of `n`, without leading zeros.
pub open spec fn decimal(n: nat) -> Seq<char>
    decreases n,
{
    if n < 10 {
        seq![digit(n as int)]
    } else {
        decimal(n / 10).push(digit((n % 10) as int))
    }
}

/// Texts separated by commas.
pub open spec fn join(parts: Seq<Seq<char>>) -> Seq<char>
    decreases parts.len(),
{
    if parts.len() == 0 {
        Seq::empty()
    } else if parts.len() == 1 {
        parts[0]
    } else {
        join(parts.drop_last()) + ","@ + parts.last()
    }
}

/// The text of a JSON value: `null`, `true`, `false`, an integer in
/// decimal, the characters of a string, `[a,b,...]` for an array and
/// `{k=v,...}` for an object. A number of float kind is written as `float:`
/// followed by the decimal of its single-precision bit pattern.
pub open spec fn value_text(v: JsonView) -> Seq<char>
    decreases v,
{
    match v {
        JsonView::Null => "null"@,
        JsonView::Bool(b) => if b {
            "true"@
        } else {
            "false"@
        },
        JsonView::UInt(n) => decimal(n as nat),
        JsonView::Int(n) => if n < 0 {
            "-"@ + decimal((-n) as nat)
        } else {
            decimal(n as nat)
        },
        JsonView::Float(x) => "float:"@ + decimal(x.bits as nat),
        JsonView::Str(s) => s,
        JsonView::Array(items) => "["@ + join(item_texts(items)) + "]"@,
        JsonView::Object(entries) => "{"@ + join(entry_texts(entries)) + "}"@,
    }
}

/// The texts of the items of an array.
pub open spec fn item_texts(items: Seq<JsonView>) -> Seq<Seq<char>>
    decreases items,
{
    Seq::new(
        items.len(),
        |i: int|
            if 0 <= i < items.len() {
                value_text(items[i])
            } else {
                Seq::empty()
            },
    )
}

/// The texts `key=value` of the entries of an object.
pub open spec fn entry_texts(entries: Seq<(Seq<char>, JsonView)>) -> Seq<Seq<char>>
    decreases entries,
{
    Seq::new(
        entries.len(),
        |i: int|
            if 0 <= i < entries.len() {
                entries[i].0 + "="@ + value_text(entries[i].1)
            } else {
                Seq::empty()
            },
    )
}

/// The text of the entries of a success report: `path=value` for each,
/// separated by commas.
pub open spec fn entries_text(entries: Seq<(Seq<char>, JsonView)>) -> Seq<char> {
    join(entry_texts(entries))
}

/// The text of what a success report says was written: the text of its
/// entries where it is an object, the text of the value otherwise.
pub open spec fn success_text(body: JsonView) -> Seq<char> {
    match body {
        JsonView::Object(entries) => entries_text(entries),
        _ => value_text(body),
    }
}

/// The status that one report stands for: `{"success": b}` reports success
/// with the text of `b`, whatever `b` is; `{"error": {"description": d,
/// ...}}` reports failure with `d`.
pub open spec fn status_of(j: JsonView) -> Option<StatusView> {
    match j.get("success"@) {
        Some(body) => Some(StatusView { success: true, value: success_text(body) }),
        None => match j.get("error"@) {
            Some(e) => match e.get("description"@) {
                Some(JsonView::Str(d)) => Some(StatusView { success: false, value: d }),
                _ => None,
            },
            None => None,
        },
    }
}

fn digit_text(d: u64) -> (r: &'static str)
    requires
        d < 10,
    ensures
        r@ == seq![digit(d as int)],
{
    proof {
        reveal_strlit("0");
        reveal_strlit("1");
        reveal_strlit("2");
        reveal_strlit("3");
        reveal_strlit("4");
        reveal_strlit("5");
        reveal_strlit("6");
        reveal_strlit("7");
        reveal_strlit("8");
        reveal_strlit("9");
    }
    if d == 0 {
        "0"
    } else if d == 1 {
        "1"
    } else if d == 2 {
        "2"
    } else if d == 3 {
        "3"
    } else if d == 4 {
        "4"
    } else if d == 5 {
        "5"
    } else if d == 6 {
        "6"
    } else if d == 7 {
        "7"
    } else if d == 8 {
        "8"
    } else {
        "9"
    }
}

/// Appends the decimal digits of `n`.
fn write_decimal(out: &mut String, n: u64)
    ensures
        final(out)@ == old(out)@ + decimal(n as nat),
    decreases n,
{
    if n >= 10 {
        write_decimal(out, n / 10);
    }
    out.append(digit_text(n % 10));
    proof {
        if n >= 10 {
            assert(old(out)@ + decimal(n as nat) =~= old(out)@ + decimal((n / 10) as nat) + seq![
                digit((n % 10) as int),
            ]);
        } else {
            assert(old(out)@ + decimal(n as nat) =~= old(out)@ + seq![digit((n % 10) as int)]);
        }
    }
}

/// Appends the text of a JSON value.
fn write_value(out: &mut String, v: &Json)
    ensures
        final(out)@ == old(out)@ + value_text(v@),
    decreases v,
{
    proof {
        reveal_with_fuel(<Json as View>::view, 2);
        reveal_with_fuel(value_text, 2);
        reveal_strlit("null");
        reveal_strlit("true");
        reveal_strlit("false");
        reveal_strlit("-");
        reveal_strlit("float:");
        reveal_strlit("[");
        reveal_strlit("]");
        reveal_strlit("{");
        reveal_strlit("}");
        reveal_strlit("=");
        reveal_strlit(",");
    }
    match v {
        Json::Null => out.append("null"),
        Json::Bool(b) => if *b {
            out.append("true")
        } else {
            out.append("false")
        },
        Json::UInt(n) => write_decimal(out, *n),
        Json::Int(n) => {
            if *n < 0 {
                out.append("-");
                write_decimal(out, (-(*n + 1)) as u64 + 1);
            } else {
                write_decimal(out, *n as u64);
            }
            assert(out@ =~= old(out)@ + value_text(v@));
        },
        Json::Float(x) => {
            out.append("float:");
            write_decimal(out, x.bits as u64);
            assert(out@ =~= old(out)@ + value_text(v@));
        },
        Json::Str(s) => out.append(s.as_str()),
        Json::Array(items) => {
            let ghost start = out@;
            let ghost parts = item_texts(v@->Array_0);
            out.append("[");
            let mut i: usize = 0;
            while i < items.len()
                invariant
                    *v == Json::Array(*items),
                    parts.len() == items@.len(),
                    forall|k: int| 0 <= k < parts.len() ==> parts[k] == value_text(#[trigger] items@[k]@),
                    i <= items@.len(),
                    out@ == start + "["@ + join(parts.take(i as int)),
                decreases items@.len() - i,
            {
                if i > 0 {
                    out.append(",");
                }
                proof {
                    assert(decreases_to!(*v => (*v)->Array_0));
                    assert(decreases_to!((*v)->Array_0 => (*v)->Array_0[i as int]));
                }
                write_value(out, &items[i]);
                assert(parts.take(i + 1).drop_last() =~= parts.take(i as int));
                i = i + 1;
            }
            out.append("]");
            proof {
                assert(parts.take(i as int) =~= parts);
                assert(out@ =~= old(out)@ + value_text(v@));
            }
        },
        Json::Object(entries) => {
            let ghost start = out@;
            let ghost parts = entry_texts(v@->Object_0);
            out.append("{");
            let mut i: usize = 0;
            while i < entries.len()
                invariant
                    *v == Json::Object(*entries),
                    parts.len() == entries@.len(),
                    forall|k: int|
                        0 <= k < parts.len() ==> parts[k] == entries@[k].0@ + "="@ + value_text(
                            #[trigger] entries@[k].1@,
                        ),
                    i <= entries@.len(),
                    out@ == start + "{"@ + join(parts.take(i as int)),
                decreases entries@.len() - i,
            {
                if i > 0 {
                    out.append(",");
                }
                out.append(entries[i].0.as_str());
                out.append("=");
                proof {
                    assert(decreases_to!(*v => (*v)->Object_0));
                    assert(decreases_to!((*v)->Object_0 => (*v)->Object_0[i as int]));
                    assert(decreases_to!((*v)->Object_0[i as int] => (*v)->Object_0[i as int].1));
                }
                write_value(out, &entries[i].1);
                assert(parts.take(i + 1).drop_last() =~= parts.take(i as int));
                i = i + 1;
            }
            out.append("}");
            proof {
                assert(parts.take(i as int) =~= parts);
                assert(out@ =~= old(out)@ + value_text(v@));
            }
        },
    }
}

/// The text of the entries of a success report.
fn text_of_entries(entries: &Vec<(String, Json)>) -> (r: String)
    ensures
        r@ == entries_text(entry_views(entries@)),
{
    let ghost parts = entry_texts(entry_views(entries@));
    let mut out = String::new();
    let mut i: usize = 0;
    proof {
        reveal_strlit(",");
        reveal_strlit("=");
    }
    while i < entries.len()
        invariant
            parts == entry_texts(entry_views(entries@)),
            parts.len() == entries@.len(),
            forall|k: int|
                0 <= k < parts.len() ==> parts[k] == entries@[k].0@ + "="@ + value_text(
                    #[trigger] entries@[k].1@,
                ),
            i <= entries@.len(),
            out@ == join(parts.take(i as int)),
        decreases entries@.len() - i,
    {
        if i > 0 {
            out.append(",");
        }
        out.append(entries[i].0.as_str());
        out.append("=");
        write_value(&mut out, &entries[i].1);
        assert(parts.take(i + 1).drop_last() =~= parts.take(i as int));
        i = i + 1;
    }
    assert(parts.take(i as int) =~= parts);
    out
}

/// Reads one report of a status.
fn status_entry(j: &Json) -> (r: Option<Status>)
    ensures
        opt_view(r) == status_of(j@),
{
    match j.get("success") {
        Some(body) => {
            let value = match body {
                Json::Object(entries) => {
                    proof {
                        lemma_object_view(*entries);
                    }
                    text_of_entries(entries)
                },
                _ => {
                    let mut out = String::new();
                    write_value(&mut out, body);
                    out
                },
            };
            Some(Status { success: true, value })
        },
        None => match j.get("error") {
            Some(e) => match e.get("description") {
                Some(Json::Str(d)) => Some(Status { success: false, value: d.clone() }),
                _ => None,
            },
            None => None,
        },
    }
}

/// The bridge answers a change with a list of reports, of which the first
/// is read; a single report not in a list is read too. A report with a
/// `success` entry reads as success, whatever that entry holds; one with an
/// `error` entry that has a string `description` reads as failure. Any
/// other report, or a value that is neither a list nor an object, reads as
/// nothing.
impl FromJson for Status {
    open spec fn decoded(j: JsonView) -> Option<StatusView> {
        match j {
            JsonView::Array(reports) => if reports.len() > 0 {
                status_of(reports[0])
            } else {
                None
            },
            JsonView::Object(_) => status_of(j),
            _ => None,
        }
    }

    fn from_json(j: &Json) -> (r: Option<Status>) {
        proof {
            reveal_with_fuel(<Json as View>::view, 2);
        }
        match j {
            Json::Array(reports) => if reports.len() > 0 {
                status_entry(&reports[0])
            } else {
                None
            },
            Json::Object(_) => status_entry(j),
            _ => None,
        }
    }
}

/// A list whose first report is a success for one `path` and any value
/// reads as success with `path=` and the value's text; one whose first
/// report is a success with a body that is not an object reads as success
/// with the body's text; one whose first report is an error with
/// description `d` reads as failure with `d`.
pub proof fn lemma_status_wrapping(
    path: Seq<char>,
    v: JsonView,
    body: JsonView,
    error: Seq<(Seq<char>, JsonView)>,
    d: Seq<char>,
)
    requires
        !(body is Object),
        lookup(error, "description"@) == Some(JsonView::Str(d)),
    ensures
        Status::decoded(
            JsonView::Array(
                seq![JsonView::Object(seq![("success"@, JsonView::Object(seq![(path, v)]))])],
            ),
        ) == Some(StatusView { success: true, value: path + "="@ + value_text(v) }),
        Status::decoded(JsonView::Array(seq![JsonView::Object(seq![("success"@, body)])]))
            == Some(StatusView { success: true, value: value_text(body) }),
        Status::decoded(
            JsonView::Array(seq![JsonView::Object(seq![("error"@, JsonView::Object(error))])]),
        ) == Some(StatusView { success: false, value: d }),
{
    reveal_strlit("success");
    reveal_strlit("error");
    reveal_with_fuel(lookup, 2);
    assert("success"@[0] != "error"@[0]);
    let ok = seq![("success"@, JsonView::Object(seq![(path, v)]))];
    let bare = seq![("success"@, body)];
    let failed = seq![("error"@, JsonView::Object(error))];
    assert(ok.drop_first() =~= Seq::empty());
    assert(bare.drop_first() =~= Seq::empty());
    assert(failed.drop_first() =~= Seq::empty());
    let one = seq![(path, v)];
    assert(entry_texts(one) =~= seq![path + "="@ + value_text(v)]);
}

} // verus!
