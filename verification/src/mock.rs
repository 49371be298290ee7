//! A query executor for tests: it answers each known query, recognized by
//! its wire serialization, with a canned response.

use vstd::prelude::*;
use vstd::string::*;
use crate::emit::wire_chars;
use crate::query::{ArangoQuery, ExecuteArangoQuery};
use crate::text::str_eq;

verus! {

/// The views of a sequence of string pairs.
pub open spec fn str_pair_views(s: Seq<(String, String)>) -> Seq<(Seq<char>, Seq<char>)> {
    Seq::new(s.len(), |i: int| (s[i].0@, s[i].1@))
}

/// The response stored under the first matching request, or the empty
/// string when none matches.
pub open spec fn response_for(
    table: Seq<(Seq<char>, Seq<char>)>,
    request: Seq<char>,
) -> Seq<char>
    decreases table.len(),
{
    if table.len() == 0 {
        Seq::empty()
    } else if table[0].0 == request {
        table[0].1
    } else {
        response_for(table.drop_first(), request)
    }
}

/// A canned executor: wire serializations of queries mapped to the
/// responses they should receive.
pub struct ArangoMock {
    requests_and_responses: Vec<(String, String)>,
}

impl ArangoMock {
    /// The stored (request, response) table, in order.
    pub closed spec fn table(&self) -> Seq<(Seq<char>, Seq<char>)> {
        str_pair_views(self.requests_and_responses@)
    }

    /// A mock answering each listed request with its response.
    pub fn new(requests_and_responses: Vec<(String, String)>) -> (r: ArangoMock)
        ensures
            r.table() == str_pair_views(requests_and_responses@),
    {
        ArangoMock { requests_and_responses }
    }
}

impl ExecuteArangoQuery for ArangoMock {
    type Output = String;

    /// Serializes the query and answers with the stored response, or with
    /// the empty string for an unknown query.
    fn execute_query(&self, query: ArangoQuery) -> (r: String)
        ensures
            r@ == response_for(
                self.table(),
                wire_chars(query.text(), query.binds(), query.batch()),
            ),
    {
        let serialized = query.to_json_string();
        proof {
            assert(self.table().skip(0) =~= self.table());
        }
        let mut i: usize = 0;
        while i < self.requests_and_responses.len()
            invariant
                i <= self.requests_and_responses@.len(),
                serialized@ == wire_chars(query.text(), query.binds(), query.batch()),
                forall|j: int|
                    0 <= j < i ==> (#[trigger] self.requests_and_responses@[j]).0@
                        != serialized@,
                response_for(self.table(), serialized@) == response_for(
                    self.table().skip(i as int),
                    serialized@,
                ),
            decreases self.requests_and_responses.len() - i,
        {
            if str_eq(self.requests_and_responses[i].0.as_str(), serialized.as_str()) {
                proof {
                    assert(self.table().skip(i as int)[0] == (
                        self.requests_and_responses@[i as int].0@,
                        self.requests_and_responses@[i as int].1@,
                    ));
                }
                return self.requests_and_responses[i].1.clone();
            }
            proof {
                assert(self.table().skip(i as int)[0] == (
                    self.requests_and_responses@[i as int].0@,
                    self.requests_and_responses@[i as int].1@,
                ));
                assert(self.table().skip(i as int).drop_first() =~= self.table().skip(
                    i + 1,
                ));
            }
            i = i + 1;
        }
        proof {
            assert(self.table().skip(i as int).len() == 0);
        }
        String::new()
    }
}

} // verus!
