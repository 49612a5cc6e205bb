//! The bridge handle: what each request sends, and what each response
//! means. Sending a request and reading its response is the caller's part.
use vstd::prelude::*;

use crate::json_helper::{FromJson, Json, JsonView, ToJson, lemma_object_view, opt_view};
use crate::rest_api::light::{Attributes, AttributesView, Light, State, decode_lights, lights_of, lights_view, sort_by_id};

verus! {

/// An HTTP method the bridge's API uses.
#[derive(Clone, Copy, Debug, PartialEq, Eq, Structural)]
pub enum Method {
    Get,
    Put,
    Post,
}

/// A request to send to the bridge. A body goes as compact JSON text, with
/// media type `application/json`.
#[derive(Debug)]
pub struct Request {
    pub method: Method,
    pub url: String,
    pub body: Option<Json>,
}

/// What the bridge answered: the HTTP status code, and the body where it
/// could be read and parsed as JSON.
#[derive(Debug)]
pub struct Response {
    pub status: u16,
    pub body: Option<Json>,
}

/// The JSON body of a successful response. Nothing where no response came
/// (the request could not be sent), where the status is not 200, or where
/// the body was not JSON.
pub open spec fn success_body(response: Option<Response>) -> Option<JsonView> {
    match response {
        Some(resp) => if resp.status == 200 {
            match resp.body {
                Some(b) => Some(b@),
                None => None,
            }
        } else {
            None
        },
        None => None,
    }
}

/// Reads what a request yields from the bridge's response: the body read as
/// a `T` where the response is a success, nothing otherwise.
pub fn receive<T: FromJson>(response: &Option<Response>) -> (r: Option<T>)
    ensures
        opt_view(r) == match success_body(*response) {
            Some(b) => T::decoded(b),
            None => None,
        },
{
    match response {
        Some(resp) => if resp.status == 200 {
            match &resp.body {
                Some(b) => T::from_json(b),
                None => None,
            }
        } else {
            None
        },
        None => None,
    }
}

/// The lights that a response lists, sorted by id: nothing where the
/// response is no success or one of its lights does not read.
pub open spec fn listed_lights(response: Option<Response>) -> Option<
    Seq<(Seq<char>, AttributesView)>,
> {
    match success_body(response) {
        Some(b) => match lights_of(b) {
            Some(all) => Some(sort_by_id(all)),
            None => None,
        },
        None => None,
    }
}

/// Reads the list of all lights from the bridge's response: the lights
/// sorted by id where the response is a success and every light reads,
/// nothing otherwise.
pub fn receive_lights(response: &Option<Response>) -> (r: Option<Vec<(String, Attributes)>>)
    ensures
        r is Some <==> listed_lights(*response) is Some,
        r matches Some(lights) ==> lights_view(lights@) == listed_lights(*response)->Some_0,
{
    match response {
        Some(resp) => if resp.status == 200 {
            match &resp.body {
                Some(b) => decode_lights(b),
                None => None,
            }
        } else {
            None
        },
        None => None,
    }
}

/// A handle on one bridge: its host and the user name that the bridge gave
/// at pairing.
#[derive(Clone, Debug)]
pub struct Bridge {
    host: String,
    username: String,
}

impl Bridge {
    /// The bridge's host.
    pub closed spec fn host_view(&self) -> Seq<char> {
        self.host@
    }

    /// The user name the requests carry.
    pub closed spec fn username_view(&self) -> Seq<char> {
        self.username@
    }

    /// The URL of `path` under the user's namespace on the bridge.
    pub open spec fn url_of(&self, path: Seq<char>) -> Seq<char> {
        "http://"@ + self.host_view() + "/api/"@ + self.username_view() + path
    }

    pub fn new(host: String, username: String) -> (r: Bridge)
        ensures
            r.host_view() == host@,
            r.username_view() == username@,
    {
        Bridge { host, username }
    }

    pub fn host(&self) -> (r: &str)
        ensures
            r@ == self.host_view(),
    {
        self.host.as_str()
    }

    pub fn username(&self) -> (r: &str)
        ensures
            r@ == self.username_view(),
    {
        self.username.as_str()
    }

    /// The URL of `path` under the user's namespace on the bridge.
    pub fn url(&self, path: &str) -> (r: String)
        ensures
            r@ == self.url_of(path@),
    {
        let mut url = String::from_str("http://");
        url.append(self.host.as_str());
        url.append("/api/");
        url.append(self.username.as_str());
        url.append(path);
        url
    }

    /// A request to the bridge. `path` addresses a resource under the user's
    /// namespace, without the `/api/<username>` part.
    pub fn request(&self, method: Method, path: &str, body: Option<Json>) -> (r: Request)
        requires
            path@.len() > 0,
            path@[0] == '/',
        ensures
            r.method == method,
            r.url@ == self.url_of(path@),
            r.body == body,
    {
        Request { method, url: self.url(path), body }
    }

    pub fn get(&self, path: &str) -> (r: Request)
        requires
            path@.len() > 0,
            path@[0] == '/',
        ensures
            r.method == Method::Get,
            r.url@ == self.url_of(path@),
            r.body is None,
    {
        self.request(Method::Get, path, None)
    }

    pub fn put(&self, path: &str, body: Json) -> (r: Request)
        requires
            path@.len() > 0,
            path@[0] == '/',
        ensures
            r.method == Method::Put,
            r.url@ == self.url_of(path@),
            r.body == Some(body),
    {
        self.request(Method::Put, path, Some(body))
    }

    pub fn post(&self, path: &str, body: Json) -> (r: Request)
        requires
            path@.len() > 0,
            path@[0] == '/',
        ensures
            r.method == Method::Post,
            r.url@ == self.url_of(path@),
            r.body == Some(body),
    {
        self.request(Method::Post, path, Some(body))
    }
}

/// `/lights/<id>` followed by `rest`.
fn light_path(id: &str, rest: &str) -> (r: String)
    ensures
        r@ == "/lights/"@ + id@ + rest@,
        r@.len() > 0,
        r@[0] == '/',
{
    proof {
        reveal_strlit("/lights/");
    }
    let mut path = String::from_str("/lights/");
    path.append(id);
    path.append(rest);
    path
}

/// The body of a rename: `{"name": <name>}`.
pub open spec fn rename_body(name: Seq<char>) -> JsonView {
    JsonView::Object(seq![("name"@, JsonView::Str(name))])
}

impl Light for Bridge {
    fn get_all(&self) -> (r: Request)
        ensures
            r.method == Method::Get,
            r.url@ == self.url_of("/lights"@),
            r.body is None,
    {
        proof {
            reveal_strlit("/lights");
        }
        self.get("/lights")
    }

    fn get_attributes(&self, id: &str) -> (r: Request)
        ensures
            r.method == Method::Get,
            r.url@ == self.url_of("/lights/"@ + id@),
            r.body is None,
    {
        proof {
            reveal_strlit("");
        }
        let path = light_path(id, "");
        assert(path@ == "/lights/"@ + id@);
        self.get(path.as_str())
    }

    fn set_state(&self, id: &str, state: State) -> (r: Request)
        ensures
            r.method == Method::Put,
            r.url@ == self.url_of("/lights/"@ + id@ + "/state"@),
            r.body matches Some(b) && b@ == State::encoded(state),
    {
        let path = light_path(id, "/state");
        self.put(path.as_str(), state.to_json())
    }

    fn rename(&self, id: &str, name: &str) -> (r: Request)
        ensures
            r.method == Method::Put,
            r.url@ == self.url_of("/lights/"@ + id@),
            r.body matches Some(b) && b@ == rename_body(name@),
    {
        proof {
            reveal_strlit("");
        }
        let path = light_path(id, "");
        assert(path@ == "/lights/"@ + id@);
        let entries = vec![(String::from_str("name"), Json::Str(String::from_str(name)))];
        proof {
            lemma_object_view(entries);
            assert(crate::json_helper::entry_views(entries@) =~= seq![("name"@, JsonView::Str(name@))]);
        }
        self.put(path.as_str(), Json::Object(entries))
    }
}

} // verus!
