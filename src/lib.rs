//! A typed client library for the Philips Hue bridge REST API.
//!
//! The library maps the bridge's JSON schema onto typed records and closed
//! vocabularies, and decides what each request sends and what each response
//! means. Moving bytes over the network is left to the caller.
pub mod json_helper;
pub mod rest_api;
pub mod bridge;

use vstd::prelude::*;

use bridge::{Bridge, Request, Response, listed_lights, receive_lights};
use rest_api::light::{Attributes, AttributesView, Light, lights_view};

verus! {

/// A handle on a Hue system, through one bridge.
#[derive(Debug)]
pub struct Hue {
    bridge: Bridge,
}

impl Hue {
    /// The bridge that the handle goes through.
    pub closed spec fn bridge_view(&self) -> Bridge {
        self.bridge
    }

    /// A handle on the bridge at 192.168.1.10, as user `newdeveloper`.
    pub fn new() -> (r: Hue)
        ensures
            r.bridge_view().host_view() == "192.168.1.10"@,
            r.bridge_view().username_view() == "newdeveloper"@,
    {
        let host = String::from_str("192.168.1.10");
        Hue { bridge: Bridge::new(host, String::from_str("newdeveloper")) }
    }

    pub fn bridge(&self) -> (r: &Bridge)
        ensures
            *r == self.bridge_view(),
    {
        &self.bridge
    }

    /// The request that lists all lights; its response goes to
    /// [`Hue::lights`] or [`Hue::light`].
    pub fn lights_request(&self) -> (r: Request)
        ensures
            r.method == bridge::Method::Get,
            r.url@ == self.bridge_view().url_of("/lights"@),
            r.body is None,
    {
        self.bridge.get_all()
    }

    /// The lights that the response to [`Hue::lights_request`] lists, sorted
    /// by id, one after the other; nothing where the response does not list
    /// them.
    pub fn lights(&self, response: &Option<Response>) -> (r: Option<LightIter>)
        ensures
            r is Some <==> listed_lights(*response) is Some,
            r matches Some(it) ==> it.remaining() == listed_lights(*response)->Some_0,
    {
        match receive_lights(response) {
            Some(lights) => Some(LightIter { lights }),
            None => None,
        }
    }

    /// The light at `index` in the sorted list that the response to
    /// [`Hue::lights_request`] gives; nothing where the response does not
    /// list the lights or lists no more than `index` of them.
    pub fn light(&self, response: &Option<Response>, index: usize) -> (r: Option<OneLight>)
        ensures
            r is Some <==> (listed_lights(*response) matches Some(ls) && index < ls.len()),
            r matches Some(light) ==> light@ == listed_lights(*response)->Some_0[index as int],
    {
        match receive_lights(response) {
            Some(mut lights) => {
                if index < lights.len() {
                    let (id, attrs) = lights.remove(index);
                    Some(OneLight { id, attrs })
                } else {
                    None
                }
            },
            None => None,
        }
    }
}

/// The lights of one listing, one after the other.
#[derive(Debug)]
pub struct LightIter {
    lights: Vec<(String, Attributes)>,
}

impl LightIter {
    /// The lights that are still to come.
    pub closed spec fn remaining(&self) -> Seq<(Seq<char>, AttributesView)> {
        lights_view(self.lights@)
    }

    /// The next light, or nothing where all have come.
    pub fn next(&mut self) -> (r: Option<OneLight>)
        ensures
            old(self).remaining().len() == 0 ==> r is None && final(self).remaining()
                == old(self).remaining(),
            old(self).remaining().len() > 0 ==> {
                &&& r matches Some(light) && light@ == old(self).remaining()[0]
                &&& final(self).remaining() == old(self).remaining().drop_first()
            },
    {
        if self.lights.len() == 0 {
            None
        } else {
            let (id, attrs) = self.lights.remove(0);
            assert(self.remaining() =~= old(self).remaining().drop_first());
            Some(OneLight { id, attrs })
        }
    }
}

/// One light: its id and what the bridge said of it.
#[derive(Debug)]
pub struct OneLight {
    id: String,
    attrs: Attributes,
}

impl View for OneLight {
    type V = (Seq<char>, AttributesView);

    closed spec fn view(&self) -> (Seq<char>, AttributesView) {
        (self.id@, self.attrs@)
    }
}

impl OneLight {
    pub fn id(&self) -> (r: &str)
        ensures
            r@ == self@.0,
    {
        self.id.as_str()
    }

    pub fn attributes(&self) -> (r: &Attributes)
        ensures
            r@ == self@.1,
    {
        &self.attrs
    }
}

} // verus!
