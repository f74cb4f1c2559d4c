//! The header mapping of a request: each header line is split on its first
//! colon, both sides are trimmed, and a later occurrence of a key overwrites
//! an earlier one. Lines without a colon are skipped.

use vstd::prelude::*;
use crate::chars::{find_first_colon, first_colon, trim_of, trim_str};

verus! {

/// The key of a header line (the trimmed text before its first colon).
pub open spec fn line_key(l: Seq<char>) -> Seq<char> {
    trim_of(l.take(first_colon(l)->Some_0))
}

/// The value of a header line (the trimmed text after its first colon).
pub open spec fn line_value(l: Seq<char>) -> Seq<char> {
    trim_of(l.skip(first_colon(l)->Some_0 + 1))
}

/// The mapping that a sequence of header lines builds, in order: a line
/// without a colon changes nothing, any other inserts its key and value.
pub open spec fn header_lines_map(lines: Seq<Seq<char>>) -> Map<Seq<char>, Seq<char>>
    decreases lines.len(),
{
    if lines.len() == 0 {
        Map::empty()
    } else {
        let m = header_lines_map(lines.drop_last());
        let l = lines.last();
        if first_colon(l) is Some {
            m.insert(line_key(l), line_value(l))
        } else {
            m
        }
    }
}

/// The headers of a full request given as lines, the start line first:
/// the mapping built from every line after the first.
pub open spec fn headers_of_lines(lines: Seq<Seq<char>>) -> Map<Seq<char>, Seq<char>> {
    if lines.len() == 0 {
        Map::empty()
    } else {
        header_lines_map(lines.drop_first())
    }
}

/// The case-preserving header mapping of one request, looked up by exact key.
#[derive(Debug)]
pub struct RequestHeader {
    pairs: Vec<(String, String)>,
}

impl View for RequestHeader {
    type V = Map<Seq<char>, Seq<char>>;

    closed spec fn view(&self) -> Map<Seq<char>, Seq<char>> {
        assoc_map(self.pairs@.map_values(|p: (String, String)| (p.0@, p.1@)))
    }
}

/// The mapping an association list builds, later entries overwriting earlier.
pub open spec fn assoc_map(pairs: Seq<(Seq<char>, Seq<char>)>) -> Map<Seq<char>, Seq<char>>
    decreases pairs.len(),
{
    if pairs.len() == 0 {
        Map::empty()
    } else {
        assoc_map(pairs.drop_last()).insert(pairs.last().0, pairs.last().1)
    }
}

/// The entry at `i` is in the mapping with its value, when no later entry
/// holds the same key.
proof fn lemma_assoc_map_found(pairs: Seq<(Seq<char>, Seq<char>)>, i: int)
    requires
        0 <= i < pairs.len(),
        forall|j: int| i < j < pairs.len() ==> pairs[j].0 != pairs[i].0,
    ensures
        assoc_map(pairs).contains_key(pairs[i].0),
        assoc_map(pairs)[pairs[i].0] == pairs[i].1,
    decreases pairs.len(),
{
    if i < pairs.len() - 1 {
        lemma_assoc_map_found(pairs.drop_last(), i);
    }
}

/// A key no entry holds is not in the mapping.
proof fn lemma_assoc_map_missing(pairs: Seq<(Seq<char>, Seq<char>)>, k: Seq<char>)
    requires
        forall|i: int| 0 <= i < pairs.len() ==> pairs[i].0 != k,
    ensures
        !assoc_map(pairs).contains_key(k),
    decreases pairs.len(),
{
    if pairs.len() > 0 {
        lemma_assoc_map_missing(pairs.drop_last(), k);
    }
}

impl RequestHeader {
    spec fn pair_views(self) -> Seq<(Seq<char>, Seq<char>)> {
        self.pairs@.map_values(|p: (String, String)| (p.0@, p.1@))
    }

    /// Inserts a header, overwriting any earlier value under the same key.
    pub fn add_header(&mut self, key: &str, value: &str)
        ensures
            final(self)@ == old(self)@.insert(key@, value@),
    {
        let pair = (key.to_owned(), value.to_owned());
        proof {
            assert(self.pairs@.push(pair).map_values(|p: (String, String)| (p.0@, p.1@))
                =~= self.pair_views().push((key@, value@)));
            assert(self.pair_views().push((key@, value@)).drop_last() =~= self.pair_views());
        }
        self.pairs.push(pair);
    }

    /// Looks a header up by exact key; the last insertion under a key wins.
    pub fn get_header(&self, key: &str) -> (r: Option<&String>)
        ensures
            match r {
                Some(v) => self@.contains_key(key@) && v@ == self@[key@],
                None => !self@.contains_key(key@),
            },
    {
        let n = self.pairs.len();
        let mut i: usize = n;
        while i > 0
            invariant
                n == self.pairs@.len(),
                i <= n,
                forall|j: int| i <= j < n ==> self.pairs@[j].0@ != key@,
            decreases i,
        {
            i = i - 1;
            if crate::chars::str_eq(self.pairs[i].0.as_str(), key) {
                proof {
                    lemma_assoc_map_found(self.pair_views(), i as int);
                }
                return Some(&self.pairs[i].1);
            }
        }
        proof {
            lemma_assoc_map_missing(self.pair_views(), key@);
        }
        None
    }

    /// Builds the header mapping of a request given as lines, the start line
    /// first: every later line is split on its first colon, both sides are
    /// trimmed, and lines without a colon are skipped.
    pub fn from_http_request(http_request: &[String]) -> (r: RequestHeader)
        ensures
            r@ == headers_of_lines(http_request@.map_values(|s: String| s@)),
    {
        let ghost hl = http_request@.map_values(|s: String| s@);
        let mut r = RequestHeader { pairs: Vec::new() };
        proof {
            assert(r@ =~= Map::<Seq<char>, Seq<char>>::empty());
        }
        if http_request.len() == 0 {
            return r;
        }
        let n = http_request.len();
        let mut i: usize = 1;
        while i < n
            invariant
                n == http_request@.len(),
                hl == http_request@.map_values(|s: String| s@),
                1 <= i <= n,
                r@ == header_lines_map(hl.subrange(1, i as int)),
            decreases n - i,
        {
            let line: &String = &http_request[i];
            proof {
                assert(hl.subrange(1, i + 1).drop_last() =~= hl.subrange(1, i as int));
                assert(hl.subrange(1, i + 1).last() == line@);
            }
            match find_first_colon(line.as_str()) {
                Some(k) => {
                    let len = line.as_str().unicode_len();
                    proof {
                        crate::chars::lemma_first_colon_props(line@);
                        assert(line@.subrange(0, k as int) =~= line@.take(k as int));
                        assert(line@.subrange(k + 1, len as int) =~= line@.skip(k + 1));
                    }
                    let key = trim_str(line.as_str().substring_char(0, k));
                    let value = trim_str(line.as_str().substring_char(k + 1, len));
                    r.add_header(key.as_str(), value.as_str());
                },
                None => {},
            }
            i = i + 1;
        }
        proof {
            assert(hl.subrange(1, n as int) =~= hl.drop_first());
        }
        r
    }
}

/// A line without a colon is skipped: it leaves the header mapping of the
/// lines before it unchanged.
pub proof fn lemma_no_colon_skipped(lines: Seq<Seq<char>>, l: Seq<char>)
    requires
        first_colon(l) is None,
    ensures
        header_lines_map(lines.push(l)) == header_lines_map(lines),
{
    assert(lines.push(l).drop_last() =~= lines);
}

/// A duplicate key keeps the last value seen: the mapping holds the value of
/// the last line whose key is `line_key(lines[i])`.
pub proof fn lemma_last_value_wins(lines: Seq<Seq<char>>, i: int)
    requires
        0 <= i < lines.len(),
        first_colon(lines[i]) is Some,
        forall|j: int|
            i < j < lines.len() && first_colon(lines[j]) is Some ==> line_key(lines[j])
                != line_key(lines[i]),
    ensures
        header_lines_map(lines).contains_key(line_key(lines[i])),
        header_lines_map(lines)[line_key(lines[i])] == line_value(lines[i]),
    decreases lines.len(),
{
    if i == lines.len() - 1 {
    } else {
        lemma_last_value_wins(lines.drop_last(), i);
    }
}

/// The body of a request, present only when a length header announces it.
#[derive(Debug)]
pub struct RequestBody {
    pub content: String,
}

impl RequestBody {
    pub fn new(content: String) -> (r: RequestBody)
        ensures
            r.content == content,
    {
        RequestBody { content }
    }
}

} // verus!
