use hue::bridge::{receive, receive_lights, Bridge, Method, Response};
use hue::json_helper::{FromJson, Json, Real32, ToJson};
use hue::rest_api::light::{decode_lights, Alert, Attributes, ColorMode, Effect, Light, State};
use hue::rest_api::Status;
use hue::Hue;

fn s(text: &str) -> Json {
    Json::Str(text.to_string())
}

fn obj(entries: Vec<(&str, Json)>) -> Json {
    Json::Object(entries.into_iter().map(|(k, v)| (k.to_string(), v)).collect())
}

fn keys(j: &Json) -> Vec<String> {
    match j {
        Json::Object(entries) => entries.iter().map(|(k, _)| k.clone()).collect(),
        _ => panic!("not an object"),
    }
}

fn attrs_json(name: &str) -> Json {
    obj(vec![
        ("state", obj(vec![("on", Json::Bool(false)), ("bri", Json::UInt(3))])),
        ("type", s("Dimmable light")),
        ("name", s(name)),
        ("modelid", s("LWB004")),
        ("swversion", s("5.38.1.14378")),
        ("pointsymbol", obj(vec![])),
    ])
}

fn ok(body: Json) -> Option<Response> {
    Some(Response { status: 200, body: Some(body) })
}

#[test]
fn default_state_is_unset_and_encodes_empty() {
    let state: State = Default::default();
    assert_eq!(state.on, None);
    assert_eq!(state.xy, None);
    assert_eq!(state.transitiontime, None);
    assert!(keys(&state.to_json()).is_empty());
}

#[test]
fn encoded_keys_are_the_set_fields_in_order() {
    let mut state = State::default();
    state.transitiontime = Some(0);
    state.sat = Some(0);
    state.on = Some(false);
    state.colormode = Some(ColorMode::HueSat);
    assert_eq!(keys(&state.to_json()), vec!["on", "sat", "colormode", "transitiontime"]);
    state.sat = None;
    assert_eq!(keys(&state.to_json()), vec!["on", "colormode", "transitiontime"]);
}

#[test]
fn zero_is_not_unset() {
    let mut state = State::default();
    state.bri = Some(0);
    let j = state.to_json();
    assert_eq!(keys(&j), vec!["bri"]);
    assert!(matches!(j.get("bri"), Some(Json::UInt(0))));
}

#[test]
fn state_round_trip() {
    let state = State {
        on: Some(true),
        bri: Some(254),
        hue: Some(10000),
        sat: Some(17),
        xy: Some((Real32 { bits: 0.3f32.to_bits() }, Real32 { bits: 0.6f32.to_bits() })),
        ct: Some(500),
        alert: Some(Alert::Select),
        effect: Some(Effect::NoEffect),
        colormode: Some(ColorMode::CieXy),
        reachable: Some(true),
        transitiontime: Some(10),
    };
    let back: Option<State> = FromJson::from_json(&state.to_json());
    assert_eq!(back, Some(state));
}

#[test]
fn sat_is_read_from_its_own_key() {
    let j = obj(vec![("bri", Json::UInt(200)), ("sat", Json::UInt(15))]);
    let state: State = FromJson::from_json(&j).unwrap();
    assert_eq!(state.bri, Some(200));
    assert_eq!(state.sat, Some(15));
}

#[test]
fn bad_field_leaves_only_that_field_unset() {
    let j = obj(vec![
        ("on", s("yes")),
        ("bri", Json::UInt(300)),
        ("hue", Json::UInt(5)),
        ("alert", s("blink")),
        ("xy", Json::Array(vec![Json::UInt(1)])),
    ]);
    let state: State = FromJson::from_json(&j).unwrap();
    assert_eq!(state.on, None);
    assert_eq!(state.bri, None);
    assert_eq!(state.hue, Some(5));
    assert_eq!(state.alert, None);
    assert_eq!(state.xy, None);
}

#[test]
fn state_needs_an_object() {
    let a: Option<State> = FromJson::from_json(&Json::Array(vec![]));
    assert_eq!(a, None);
    let b: Option<State> = FromJson::from_json(&Json::Null);
    assert_eq!(b, None);
    let c: Option<State> = FromJson::from_json(&obj(vec![]));
    assert_eq!(c, Some(State::default()));
}

#[test]
fn transitiontime_is_read() {
    let state: State = FromJson::from_json(&obj(vec![("transitiontime", Json::UInt(4))])).unwrap();
    assert_eq!(state.transitiontime, Some(4));
}

#[test]
fn color_mode_tokens() {
    let all = [
        (ColorMode::HueSat, "hs"),
        (ColorMode::CieXy, "xy"),
        (ColorMode::ColorTemperature, "ct"),
    ];
    for (mode, token) in all {
        assert!(matches!(mode.to_json(), Json::Str(t) if t == token));
        let back: Option<ColorMode> = FromJson::from_json(&s(token));
        assert_eq!(back, Some(mode));
    }
    for other in [s("HS"), s("hue"), s(""), Json::UInt(0), Json::Null] {
        let r: Option<ColorMode> = FromJson::from_json(&other);
        assert_eq!(r, None);
    }
}

#[test]
fn alert_tokens() {
    let all = [(Alert::NoAlert, "none"), (Alert::Select, "select"), (Alert::LSelect, "lselect")];
    for (alert, token) in all {
        assert!(matches!(alert.to_json(), Json::Str(t) if t == token));
        let back: Option<Alert> = FromJson::from_json(&s(token));
        assert_eq!(back, Some(alert));
    }
    for other in [s("None"), s("colorloop"), Json::Bool(true)] {
        let r: Option<Alert> = FromJson::from_json(&other);
        assert_eq!(r, None);
    }
}

#[test]
fn effect_tokens() {
    let all = [(Effect::NoEffect, "none"), (Effect::ColorLoop, "colorloop")];
    for (effect, token) in all {
        assert!(matches!(effect.to_json(), Json::Str(t) if t == token));
        let back: Option<Effect> = FromJson::from_json(&s(token));
        assert_eq!(back, Some(effect));
    }
    for other in [s("select"), s("color_loop"), Json::Array(vec![])] {
        let r: Option<Effect> = FromJson::from_json(&other);
        assert_eq!(r, None);
    }
}

#[test]
fn attributes_need_every_required_field() {
    let full: Option<Attributes> = FromJson::from_json(&attrs_json("Porch"));
    let full = full.unwrap();
    assert_eq!(full.name, "Porch");
    assert_eq!(full.type_, "Dimmable light");
    assert_eq!(full.modelid, "LWB004");
    assert_eq!(full.swversion, "5.38.1.14378");
    assert_eq!(full.state.on, Some(false));
    assert_eq!(full.state.bri, Some(3));
    let missing = obj(vec![
        ("state", obj(vec![])),
        ("type", s("Dimmable light")),
        ("modelid", s("LWB004")),
        ("swversion", s("1")),
    ]);
    let r: Option<Attributes> = FromJson::from_json(&missing);
    assert!(r.is_none());
    let bad_state = obj(vec![
        ("state", Json::UInt(1)),
        ("type", s("t")),
        ("name", s("n")),
        ("modelid", s("m")),
        ("swversion", s("v")),
    ]);
    let r: Option<Attributes> = FromJson::from_json(&bad_state);
    assert!(r.is_none());
    let r: Option<Attributes> = FromJson::from_json(&s("x"));
    assert!(r.is_none());
}

#[test]
fn status_shapes() {
    let single = obj(vec![("success", obj(vec![("/lights/2/name", s("Desk"))]))]);
    let st: Status = FromJson::from_json(&single).unwrap();
    assert!(st.success);
    assert_eq!(st.value, "/lights/2/name=Desk");
    let several = Json::Array(vec![
        obj(vec![("success", obj(vec![("/x", Json::Int(-42)), ("/y", Json::Null)]))]),
        obj(vec![("error", obj(vec![("description", s("later"))]))]),
    ]);
    let st: Status = FromJson::from_json(&several).unwrap();
    assert!(st.success);
    assert_eq!(st.value, "/x=-42,/y=null");
    let float_value = obj(vec![(
        "success",
        obj(vec![("/xy", Json::Array(vec![Json::UInt(0), Json::UInt(1)]))]),
    )]);
    let st: Status = FromJson::from_json(&float_value).unwrap();
    assert_eq!(st.value, "/xy=[0,1]");
    let half = Real32 { bits: 0.5f32.to_bits() };
    let quarter = Real32 { bits: 0.25f32.to_bits() };
    let xy = obj(vec![(
        "success",
        obj(vec![("/lights/1/state/xy", Json::Array(vec![Json::Float(half), Json::Float(quarter)]))]),
    )]);
    let st: Status = FromJson::from_json(&xy).unwrap();
    assert_eq!(st.value, "/lights/1/state/xy=[float:1056964608,float:1048576000]");
    let nested = obj(vec![("success", obj(vec![("/a", obj(vec![("b", Json::UInt(1)), ("c", s("d"))]))]))]);
    let st: Status = FromJson::from_json(&nested).unwrap();
    assert_eq!(st.value, "/a={b=1,c=d}");
    let extreme = obj(vec![("success", obj(vec![("/a", Json::Int(i64::MIN)), ("/b", Json::UInt(u64::MAX))]))]);
    let st: Status = FromJson::from_json(&extreme).unwrap();
    assert_eq!(st.value, "/a=-9223372036854775808,/b=18446744073709551615");
}

#[test]
fn status_success_bodies_of_any_kind() {
    let flag: Status = FromJson::from_json(&obj(vec![("success", Json::Bool(true))])).unwrap();
    assert!(flag.success);
    assert_eq!(flag.value, "true");
    let text = Json::Array(vec![obj(vec![("success", s("/lights/1 deleted"))])]);
    let st: Status = FromJson::from_json(&text).unwrap();
    assert!(st.success);
    assert_eq!(st.value, "/lights/1 deleted");
    let list = obj(vec![("success", Json::Array(vec![Json::UInt(1), Json::Null]))]);
    let st: Status = FromJson::from_json(&list).unwrap();
    assert_eq!(st.value, "[1,null]");
    let empty = obj(vec![("success", obj(vec![]))]);
    let st: Status = FromJson::from_json(&empty).unwrap();
    assert!(st.success);
    assert_eq!(st.value, "");
}

#[test]
fn status_failures() {
    let empty: Option<Status> = FromJson::from_json(&Json::Array(vec![]));
    assert!(empty.is_none());
    let no_description: Option<Status> =
        FromJson::from_json(&Json::Array(vec![obj(vec![("error", obj(vec![("type", Json::UInt(1))]))])]));
    assert!(no_description.is_none());
    let neither: Option<Status> = FromJson::from_json(&obj(vec![("other", Json::Null)]));
    assert!(neither.is_none());
    let text: Option<Status> = FromJson::from_json(&s("ok"));
    assert!(text.is_none());
}

#[test]
fn receive_needs_status_200_and_a_body() {
    let body = Json::Array(vec![obj(vec![("success", obj(vec![("/a", Json::Bool(true))]))])]);
    let good: Option<Status> = receive(&ok(body));
    assert_eq!(good.unwrap().value, "/a=true");
    let not_found: Option<Status> =
        receive(&Some(Response { status: 404, body: Some(Json::Array(vec![])) }));
    assert!(not_found.is_none());
    let no_body: Option<Status> = receive(&Some(Response { status: 200, body: None }));
    assert!(no_body.is_none());
    let no_response: Option<Status> = receive(&None);
    assert!(no_response.is_none());
}

#[test]
fn lights_are_sorted_by_id() {
    let listing = obj(vec![
        ("2", attrs_json("two")),
        ("10", attrs_json("ten")),
        ("1", attrs_json("one")),
    ]);
    let lights = decode_lights(&listing).unwrap();
    let ids: Vec<&str> = lights.iter().map(|(id, _)| id.as_str()).collect();
    assert_eq!(ids, vec!["1", "10", "2"]);
    assert_eq!(lights[0].1.name, "one");
    assert_eq!(lights[1].1.name, "ten");
    assert_eq!(lights[2].1.name, "two");
    assert_eq!(decode_lights(&obj(vec![])).unwrap().len(), 0);
}

#[test]
fn equal_ids_keep_object_order() {
    let listing = obj(vec![
        ("3", attrs_json("first three")),
        ("1", attrs_json("one")),
        ("3", attrs_json("second three")),
    ]);
    let lights = decode_lights(&listing).unwrap();
    let names: Vec<&str> = lights.iter().map(|(_, a)| a.name.as_str()).collect();
    assert_eq!(names, vec!["one", "first three", "second three"]);
}

#[test]
fn one_bad_light_spoils_the_list() {
    let listing = obj(vec![("1", attrs_json("one")), ("2", obj(vec![]))]);
    assert!(decode_lights(&listing).is_none());
    assert!(decode_lights(&Json::Array(vec![])).is_none());
    assert!(receive_lights(&Some(Response { status: 500, body: Some(obj(vec![])) })).is_none());
}

#[test]
fn bridge_requests() {
    let bridge = Bridge::new("192.168.0.5".to_string(), "tok".to_string());
    assert_eq!(bridge.host(), "192.168.0.5");
    assert_eq!(bridge.username(), "tok");
    assert_eq!(bridge.url("/config"), "http://192.168.0.5/api/tok/config");
    let get = bridge.get("/lights/7");
    assert_eq!(get.method, Method::Get);
    assert_eq!(get.url, "http://192.168.0.5/api/tok/lights/7");
    assert!(get.body.is_none());
    let put = bridge.put("/groups/0/action", obj(vec![("on", Json::Bool(true))]));
    assert_eq!(put.method, Method::Put);
    assert!(matches!(put.body, Some(Json::Object(ref e)) if e.len() == 1));
    let post = bridge.post("/lights", obj(vec![]));
    assert_eq!(post.method, Method::Post);
    assert_eq!(post.url, "http://192.168.0.5/api/tok/lights");
    let state = State { bri: Some(9), ..State::default() };
    let set = bridge.set_state("4", state);
    assert_eq!(set.url, "http://192.168.0.5/api/tok/lights/4/state");
    assert_eq!(keys(set.body.as_ref().unwrap()), vec!["bri"]);
    let rename = bridge.rename("4", "Hall");
    assert_eq!(rename.url, "http://192.168.0.5/api/tok/lights/4");
    let body = rename.body.unwrap();
    assert!(matches!(body.get("name"), Some(Json::Str(n)) if n == "Hall"));
}

#[test]
fn hue_handle() {
    let hue = Hue::new();
    assert_eq!(hue.bridge().host(), "192.168.1.10");
    assert_eq!(hue.bridge().username(), "newdeveloper");
    let request = hue.lights_request();
    assert_eq!(request.url, "http://192.168.1.10/api/newdeveloper/lights");
    let response = ok(obj(vec![("b", attrs_json("B")), ("a", attrs_json("A"))]));
    let mut it = hue.lights(&response).unwrap();
    let first = it.next().unwrap();
    assert_eq!(first.id(), "a");
    assert_eq!(first.attributes().name, "A");
    let second = it.next().unwrap();
    assert_eq!(second.id(), "b");
    assert!(it.next().is_none());
    assert!(it.next().is_none());
    assert_eq!(hue.light(&response, 1).unwrap().id(), "b");
    assert!(hue.light(&response, 2).is_none());
    assert!(hue.lights(&None).is_none());
    assert!(hue.light(&None, 0).is_none());
}
