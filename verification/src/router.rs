//! The request dispatcher: a stateless mapping from method and path to
//! the operation it addresses. Path parameters are parsed and
//! type-checked here — a non-integer note id or lookup number becomes a
//! malformed-request decision, never a crash — and no business logic
//! beyond that validation lives here.

use vstd::prelude::*;

use crate::parse::{all_digits, digits_val, is_int_literal, parse_i32, parse_u64, signed_val,
    str_eq};

verus! {

/// The request methods the service routes.
#[derive(Clone, Copy, Debug, PartialEq, Eq, Structural)]
pub enum HttpMethod {
    Get,
    Post,
    Patch,
    Delete,
}

/// What a request resolves to: the operation to run with its validated
/// parameters, `Malformed` for a path parameter that does not parse,
/// and `NoMatch` for a pair of method and path that no handler owns.
pub enum RouteDecision {
    Hello,
    HelloPost,
    Ping,
    KingKong,
    HealthCheck,
    GreetQuery,
    GreetBody,
    GreetPath(String),
    Lookup(i32),
    RandomReply,
    NumbersSnapshot,
    NumbersAppend,
    Poem,
    NoteCreate,
    NoteList,
    NoteFetch(u64),
    NoteEdit(u64),
    NoteRemove(u64),
    NameTemplate(String),
    Malformed,
    NoMatch,
}

/// The mathematical image of a routing decision.
pub ghost enum RouteModel {
    Hello,
    HelloPost,
    Ping,
    KingKong,
    HealthCheck,
    GreetQuery,
    GreetBody,
    GreetPath(Seq<char>),
    Lookup(i32),
    RandomReply,
    NumbersSnapshot,
    NumbersAppend,
    Poem,
    NoteCreate,
    NoteList,
    NoteFetch(u64),
    NoteEdit(u64),
    NoteRemove(u64),
    NameTemplate(Seq<char>),
    Malformed,
    NoMatch,
}

impl View for RouteDecision {
    type V = RouteModel;

    open spec fn view(&self) -> RouteModel {
        match self {
            RouteDecision::Hello => RouteModel::Hello,
            RouteDecision::HelloPost => RouteModel::HelloPost,
            RouteDecision::Ping => RouteModel::Ping,
            RouteDecision::KingKong => RouteModel::KingKong,
            RouteDecision::HealthCheck => RouteModel::HealthCheck,
            RouteDecision::GreetQuery => RouteModel::GreetQuery,
            RouteDecision::GreetBody => RouteModel::GreetBody,
            RouteDecision::GreetPath(s) => RouteModel::GreetPath(s@),
            RouteDecision::Lookup(n) => RouteModel::Lookup(*n),
            RouteDecision::RandomReply => RouteModel::RandomReply,
            RouteDecision::NumbersSnapshot => RouteModel::NumbersSnapshot,
            RouteDecision::NumbersAppend => RouteModel::NumbersAppend,
            RouteDecision::Poem => RouteModel::Poem,
            RouteDecision::NoteCreate => RouteModel::NoteCreate,
            RouteDecision::NoteList => RouteModel::NoteList,
            RouteDecision::NoteFetch(id) => RouteModel::NoteFetch(*id),
            RouteDecision::NoteEdit(id) => RouteModel::NoteEdit(*id),
            RouteDecision::NoteRemove(id) => RouteModel::NoteRemove(*id),
            RouteDecision::NameTemplate(s) => RouteModel::NameTemplate(s@),
            RouteDecision::Malformed => RouteModel::Malformed,
            RouteDecision::NoMatch => RouteModel::NoMatch,
        }
    }
}

/// The characters of each path segment.
pub open spec fn seg_views(s: Seq<String>) -> Seq<Seq<char>> {
    s.map_values(|x: String| x@)
}

/// The routing table itself: which decision a method and a split path
/// resolve to. Exactly one decision per pair. The path is its segments
/// between slashes, the root path having none; a note id must be a
/// decimal `u64` and a lookup number a decimal `i32`, anything else on
/// those positions being malformed.
pub open spec fn route_of(m: HttpMethod, segs: Seq<Seq<char>>) -> RouteModel {
    if segs.len() == 0 {
        match m {
            HttpMethod::Get => RouteModel::Hello,
            HttpMethod::Post => RouteModel::HelloPost,
            _ => RouteModel::NoMatch,
        }
    } else if segs.len() == 1 {
        let s0 = segs[0];
        if s0 == "ping"@ {
            if m == HttpMethod::Get {
                RouteModel::Ping
            } else {
                RouteModel::NoMatch
            }
        } else if s0 == "healthcheck"@ {
            if m == HttpMethod::Get {
                RouteModel::HealthCheck
            } else {
                RouteModel::NoMatch
            }
        } else if s0 == "greet"@ {
            match m {
                HttpMethod::Get => RouteModel::GreetQuery,
                HttpMethod::Post => RouteModel::GreetBody,
                _ => RouteModel::NoMatch,
            }
        } else if s0 == "random"@ {
            if m == HttpMethod::Get {
                RouteModel::RandomReply
            } else {
                RouteModel::NoMatch
            }
        } else if s0 == "numbers"@ {
            match m {
                HttpMethod::Get => RouteModel::NumbersSnapshot,
                HttpMethod::Post => RouteModel::NumbersAppend,
                _ => RouteModel::NoMatch,
            }
        } else if s0 == "poem"@ {
            if m == HttpMethod::Get {
                RouteModel::Poem
            } else {
                RouteModel::NoMatch
            }
        } else {
            RouteModel::NoMatch
        }
    } else if segs.len() == 2 {
        let s0 = segs[0];
        let s1 = segs[1];
        if s0 == "kingkong"@ {
            if s1 == "king"@ && m == HttpMethod::Get {
                RouteModel::KingKong
            } else {
                RouteModel::NoMatch
            }
        } else if s0 == "greet"@ {
            if m == HttpMethod::Get {
                RouteModel::GreetPath(s1)
            } else {
                RouteModel::NoMatch
            }
        } else if s0 == "lookup"@ {
            if m == HttpMethod::Get {
                if is_int_literal(s1) && i32::MIN <= signed_val(s1) <= i32::MAX {
                    RouteModel::Lookup(signed_val(s1) as i32)
                } else {
                    RouteModel::Malformed
                }
            } else {
                RouteModel::NoMatch
            }
        } else if s0 == "api"@ {
            if s1 == "notes"@ {
                match m {
                    HttpMethod::Get => RouteModel::NoteList,
                    HttpMethod::Post => RouteModel::NoteCreate,
                    _ => RouteModel::NoMatch,
                }
            } else if m == HttpMethod::Get {
                RouteModel::NameTemplate(s1)
            } else {
                RouteModel::NoMatch
            }
        } else {
            RouteModel::NoMatch
        }
    } else if segs.len() == 3 && segs[0] == "api"@ && segs[1] == "notes"@ {
        let s2 = segs[2];
        if m == HttpMethod::Post {
            RouteModel::NoMatch
        } else if s2.len() > 0 && all_digits(s2) && digits_val(s2) <= u64::MAX {
            let id = digits_val(s2) as u64;
            match m {
                HttpMethod::Get => RouteModel::NoteFetch(id),
                HttpMethod::Patch => RouteModel::NoteEdit(id),
                HttpMethod::Delete => RouteModel::NoteRemove(id),
                _ => RouteModel::NoMatch,
            }
        } else {
            RouteModel::Malformed
        }
    } else {
        RouteModel::NoMatch
    }
}

/// Resolve a request to its routing decision. The decision is exactly
/// the one the routing table gives for this method and path.
pub fn dispatch(m: HttpMethod, segs: &Vec<String>) -> (r: RouteDecision)
    ensures
        r@ == route_of(m, seg_views(segs@)),
{
    let n = segs.len();
    if n == 0 {
        match m {
            HttpMethod::Get => RouteDecision::Hello,
            HttpMethod::Post => RouteDecision::HelloPost,
            _ => RouteDecision::NoMatch,
        }
    } else if n == 1 {
        let s0 = segs[0].as_str();
        if str_eq(s0, "ping") {
            if matches!(m, HttpMethod::Get) {
                RouteDecision::Ping
            } else {
                RouteDecision::NoMatch
            }
        } else if str_eq(s0, "healthcheck") {
            if matches!(m, HttpMethod::Get) {
                RouteDecision::HealthCheck
            } else {
                RouteDecision::NoMatch
            }
        } else if str_eq(s0, "greet") {
            match m {
                HttpMethod::Get => RouteDecision::GreetQuery,
                HttpMethod::Post => RouteDecision::GreetBody,
                _ => RouteDecision::NoMatch,
            }
        } else if str_eq(s0, "random") {
            if matches!(m, HttpMethod::Get) {
                RouteDecision::RandomReply
            } else {
                RouteDecision::NoMatch
            }
        } else if str_eq(s0, "numbers") {
            match m {
                HttpMethod::Get => RouteDecision::NumbersSnapshot,
                HttpMethod::Post => RouteDecision::NumbersAppend,
                _ => RouteDecision::NoMatch,
            }
        } else if str_eq(s0, "poem") {
            if matches!(m, HttpMethod::Get) {
                RouteDecision::Poem
            } else {
                RouteDecision::NoMatch
            }
        } else {
            RouteDecision::NoMatch
        }
    } else if n == 2 {
        let s0 = segs[0].as_str();
        let s1 = segs[1].as_str();
        if str_eq(s0, "kingkong") {
            if str_eq(s1, "king") && matches!(m, HttpMethod::Get) {
                RouteDecision::KingKong
            } else {
                RouteDecision::NoMatch
            }
        } else if str_eq(s0, "greet") {
            if matches!(m, HttpMethod::Get) {
                RouteDecision::GreetPath(segs[1].clone())
            } else {
                RouteDecision::NoMatch
            }
        } else if str_eq(s0, "lookup") {
            if matches!(m, HttpMethod::Get) {
                match parse_i32(s1) {
                    Some(number) => RouteDecision::Lookup(number),
                    None => RouteDecision::Malformed,
                }
            } else {
                RouteDecision::NoMatch
            }
        } else if str_eq(s0, "api") {
            if str_eq(s1, "notes") {
                match m {
                    HttpMethod::Get => RouteDecision::NoteList,
                    HttpMethod::Post => RouteDecision::NoteCreate,
                    _ => RouteDecision::NoMatch,
                }
            } else if matches!(m, HttpMethod::Get) {
                RouteDecision::NameTemplate(segs[1].clone())
            } else {
                RouteDecision::NoMatch
            }
        } else {
            RouteDecision::NoMatch
        }
    } else if n == 3 && str_eq(segs[0].as_str(), "api") && str_eq(segs[1].as_str(), "notes") {
        let s2 = segs[2].as_str();
        if matches!(m, HttpMethod::Post) {
            RouteDecision::NoMatch
        } else {
            match parse_u64(s2) {
                Some(id) => match m {
                    HttpMethod::Get => RouteDecision::NoteFetch(id),
                    HttpMethod::Patch => RouteDecision::NoteEdit(id),
                    HttpMethod::Delete => RouteDecision::NoteRemove(id),
                    HttpMethod::Post => RouteDecision::NoMatch,
                },
                None => RouteDecision::Malformed,
            }
        }
    } else {
        RouteDecision::NoMatch
    }
}

} // verus!
