use vstd::prelude::*;
use crate::pattern::{lookup, Params};

verus! {

/// What a handler does, as the logic sees it.
pub enum HandlerModel {
    Fixed(Seq<char>),
    Greeting { prefix: Seq<char>, param: Seq<char> },
}

/// A response-producing function of a route. Handlers are pure: the body
/// depends on the captured parameters alone.
#[derive(Debug)]
pub enum Handler {
    /// Always answers with the same text.
    Fixed(String),
    /// Answers with `prefix` followed by the value of the parameter `param`
    /// (nothing when no such parameter was captured).
    Greeting { prefix: String, param: String },
}

impl View for Handler {
    type V = HandlerModel;

    open spec fn view(&self) -> HandlerModel {
        match self {
            Handler::Fixed(b) => HandlerModel::Fixed(b@),
            Handler::Greeting { prefix, param } => HandlerModel::Greeting {
                prefix: prefix@,
                param: param@,
            },
        }
    }
}

/// The body that handler `h` produces for the parameters `ps`.
pub open spec fn respond_spec(h: HandlerModel, ps: Seq<(Seq<char>, Seq<char>)>) -> Seq<char> {
    match h {
        HandlerModel::Fixed(b) => b,
        HandlerModel::Greeting { prefix, param } => prefix + match lookup(ps, param) {
            Some(v) => v,
            None => Seq::empty(),
        },
    }
}

impl Handler {
    pub fn fixed(body: &str) -> (r: Handler)
        ensures
            r@ == HandlerModel::Fixed(body@),
    {
        Handler::Fixed(String::from_str(body))
    }

    pub fn greeting(prefix: &str, param: &str) -> (r: Handler)
        ensures
            r@ == (HandlerModel::Greeting { prefix: prefix@, param: param@ }),
    {
        Handler::Greeting { prefix: String::from_str(prefix), param: String::from_str(param) }
    }

    /// The response body for the captured parameters.
    pub fn respond(&self, params: &Params) -> (r: String)
        ensures
            r@ == respond_spec(self@, params@),
    {
        match self {
            Handler::Fixed(b) => b.clone(),
            Handler::Greeting { prefix, param } => {
                let mut out = prefix.clone();
                match params.get(param.as_str()) {
                    Some(v) => out.append(v.as_str()),
                    None => {
                        assert(out@ =~= prefix@ + Seq::<char>::empty());
                    },
                }
                out
            },
        }
    }
}

} // verus!
