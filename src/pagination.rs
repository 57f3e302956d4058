use vstd::prelude::*;
use crate::error::{Error, ErrorKind, Param};
use crate::numbers::{parse_usize, usize_of};

verus! {

/// A requested page of the question listing: positions `start` up to, not
/// including, `end`.
#[derive(Debug, Clone, Copy, PartialEq, Eq)]
pub struct Pagination {
    pub start: usize,
    pub end: usize,
}

/// `i` is the first position of `params` whose key is `key`.
pub open spec fn first_with_key(params: Seq<(String, String)>, key: Seq<char>, i: int) -> bool {
    &&& 0 <= i < params.len()
    &&& params[i].0@ == key
    &&& forall|j: int| 0 <= j < i ==> params[j].0@ != key
}

/// The value given for `key`: that of its first occurrence, if any.
pub open spec fn param_value(params: Seq<(String, String)>, key: Seq<char>) -> Option<Seq<char>> {
    if exists|i: int| first_with_key(params, key, i) {
        Some(params[choose|i: int| first_with_key(params, key, i)].1@)
    } else {
        None
    }
}

/// What a set of query parameters asks of the listing.
pub enum PageQuery {
    /// Neither `start` nor `end`: the whole listing.
    All,
    /// Both, read as numbers.
    Range { start: usize, end: usize },
    /// Exactly one of the two.
    Missing,
    /// Both, and `field` (the first that fails, `start` before `end`) is no number.
    Malformed { field: Param, text: Seq<char> },
}

pub open spec fn page_query(params: Seq<(String, String)>) -> PageQuery {
    let s = param_value(params, "start"@);
    let e = param_value(params, "end"@);
    if s is None && e is None {
        PageQuery::All
    } else if s is None || e is None {
        PageQuery::Missing
    } else if usize_of(s->0) is None {
        PageQuery::Malformed { field: Param::Start, text: s->0 }
    } else if usize_of(e->0) is None {
        PageQuery::Malformed { field: Param::End, text: e->0 }
    } else {
        PageQuery::Range { start: usize_of(s->0)->0, end: usize_of(e->0)->0 }
    }
}

/// The position of the first parameter named `key`, if any.
fn find_param(params: &Vec<(String, String)>, key: &String) -> (r: Option<usize>)
    ensures
        match r {
            Some(i) => first_with_key(params@, key@, i as int),
            None => param_value(params@, key@) is None,
        },
{
    let mut i: usize = 0;
    while i < params.len()
        invariant
            i <= params.len(),
            forall|j: int| 0 <= j < i ==> params@[j].0@ != key@,
        decreases params.len() - i,
    {
        if params[i].0 == *key {
            return Some(i);
        }
        i = i + 1;
    }
    None
}

/// The value of the first parameter named `key`, if any.
pub(crate) fn param<'a>(params: &'a Vec<(String, String)>, key: &str) -> (r: Option<&'a String>)
    ensures
        match r {
            Some(v) => param_value(params@, key@) == Some(v@),
            None => param_value(params@, key@) is None,
        },
{
    let k = String::from_str(key);
    match find_param(params, &k) {
        Some(i) => {
            proof {
                let c = choose|c: int| first_with_key(params@, key@, c);
                assert(first_with_key(params@, key@, c));
                if c < i {
                    assert(params@[c].0@ != key@);
                } else if c > i {
                    assert(params@[i as int].0@ != key@);
                }
            }
            Some(&params[i].1)
        },
        None => None,
    }
}

/// Reads the page request out of the query parameters. No parameter named
/// `start` or `end` asks for the whole listing (`Ok(None)`); the bounds of the
/// page are not checked here.
pub fn extract_pagination(params: &Vec<(String, String)>) -> (r: Result<Option<Pagination>, Error>)
    ensures
        match page_query(params@) {
            PageQuery::All => r matches Ok(None),
            PageQuery::Range { start, end } => r matches Ok(Some(p)) && p.start == start && p.end
                == end,
            PageQuery::Missing => r matches Err(e) && e@ == ErrorKind::MissingParameters,
            PageQuery::Malformed { field, text } => r matches Err(e) && e@ == (ErrorKind::ParseInt {
                field,
                text,
            }),
        },
{
    let s = param(params, "start");
    let e = param(params, "end");
    match (s, e) {
        (None, None) => Ok(None),
        (Some(s), Some(e)) => {
            let start = match parse_usize(s.as_str()) {
                Some(v) => v,
                None => {
                    return Err(Error::ParseInt { field: Param::Start, text: s.clone() });
                },
            };
            let end = match parse_usize(e.as_str()) {
                Some(v) => v,
                None => {
                    return Err(Error::ParseInt { field: Param::End, text: e.clone() });
                },
            };
            Ok(Some(Pagination { start, end }))
        },
        _ => Err(Error::MissingParameters),
    }
}

} // verus!
