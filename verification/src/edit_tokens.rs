//! The tokens that guard changes: the query that asks the server for them,
//! and the tokens in its answer.

use crate::params::{text_field, Params};
use vstd::hash_map::StringHashMap;
use vstd::prelude::*;
use vstd::string::{StrSliceExecFns, StringExecFns};

verus! {

/// The texts that a vector of string slices holds.
pub open spec fn slices(parts: Seq<&str>) -> Seq<Seq<char>> {
    parts.map_values(|part: &str| part@)
}

/// The texts that a vector of strings holds.
pub open spec fn strings(parts: Seq<String>) -> Seq<Seq<char>> {
    parts.map_values(|part: String| part@)
}

/// The given token types in one text, with a bar between them.  The bar is
/// left out as long as nothing stands before it, so empty types in front
/// leave no trace.
pub open spec fn joined(kinds: Seq<Seq<char>>) -> Seq<char>
    decreases kinds.len(),
{
    if kinds.len() == 0 {
        Seq::empty()
    } else {
        let before = joined(kinds.drop_last());
        if before.len() > 0 {
            before + seq!['|'] + kinds.last()
        } else {
            kinds.last()
        }
    }
}

/// The types of the tokens to ask for, as the one text that the server
/// expects.
pub fn join_types(tokens: &[&str]) -> (out: String)
    ensures
        out@ == joined(slices(tokens@)),
{
    let mut t = String::new();
    let n = tokens.len();
    let mut i: usize = 0;
    while i < n
        invariant
            i <= n,
            n == tokens@.len(),
            t@ == joined(slices(tokens@.take(i as int))),
        decreases n - i,
    {
        proof {
            reveal_strlit("|");
            let now = slices(tokens@.take(i + 1));
            assert(now.drop_last() == slices(tokens@.take(i as int)));
            assert(now.last() == tokens@[i as int]@);
            assert("|"@ == seq!['|']);
        }
        if !t.as_str().is_empty() {
            t.append("|");
        }
        t.append(tokens[i]);
        i = i + 1;
    }
    proof {
        assert(tokens@.take(n as int) == tokens@);
    }
    t
}

/// The query that asks the server for tokens of the given types, joined as
/// by [`join_types`].
pub fn tokens_query<'a>(types: &'a str) -> (query: [(&'a str, &'a str); 3])
    ensures
        query.fields() == seq![
            text_field("action"@, "query"@),
            text_field("meta"@, "tokens"@),
            text_field("type"@, types@),
        ],
{
    let query = [("action", "query"), ("meta", "tokens"), ("type", types)];
    proof {
        assert(query.fields() =~= seq![
            text_field("action"@, "query"@),
            text_field("meta"@, "tokens"@),
            text_field("type"@, types@),
        ]);
    }
    query
}

/// How many characters of `text` stand before its first `sep`, or all of
/// them if it holds none.
pub open spec fn head_len(text: Seq<char>, sep: char) -> nat
    decreases text.len(),
{
    if text.len() == 0 || text[0] == sep {
        0
    } else {
        1 + head_len(text.skip(1), sep)
    }
}

/// The pieces of `text` between its separators, in order.  There is always
/// one piece more than there are separators; a piece may be empty.
pub open spec fn pieces(text: Seq<char>, sep: char) -> Seq<Seq<char>>
    decreases text.len(),
{
    let n = head_len(text, sep);
    if n >= text.len() {
        seq![text]
    } else {
        seq![text.take(n as int)] + pieces(text.skip(n as int + 1), sep)
    }
}

/// Where the first separator stands, if the characters before `k` are none.
proof fn lemma_head_len(text: Seq<char>, sep: char, k: int)
    requires
        0 <= k <= text.len(),
        forall|j: int| 0 <= j < k ==> text[j] != sep,
        k == text.len() || text[k] == sep,
    ensures
        head_len(text, sep) == k,
    decreases k,
{
    if k > 0 {
        let rest = text.skip(1);
        assert forall|j: int| 0 <= j < k - 1 implies rest[j] != sep by {
            assert(rest[j] == text[j + 1]);
        }
        lemma_head_len(rest, sep, k - 1);
    }
}

/// The pieces of `text` between the occurrences of `sep`.
pub fn split(text: &str, sep: char) -> (out: Vec<String>)
    ensures
        strings(out@) == pieces(text@, sep),
{
    let n = text.unicode_len();
    let mut out: Vec<String> = Vec::new();
    let mut start: usize = 0;
    let mut i: usize = 0;
    proof {
        assert(text@.skip(0) == text@);
        assert(strings(out@) + pieces(text@, sep) == pieces(text@, sep));
    }
    while i < n
        invariant
            start <= i <= n,
            n == text@.len(),
            forall|j: int| start <= j < i ==> text@[j] != sep,
            strings(out@) + pieces(text@.skip(start as int), sep) == pieces(text@, sep),
        decreases n - i,
    {
        if text.get_char(i) == sep {
            let piece = text.substring_char(start, i).to_owned();
            proof {
                let tail = text@.skip(start as int);
                assert forall|j: int| 0 <= j < i - start implies tail[j] != sep by {
                    assert(tail[j] == text@[start + j]);
                }
                lemma_head_len(tail, sep, i - start);
                assert(tail.take(i - start) == text@.subrange(start as int, i as int));
                assert(tail.skip(i - start + 1) == text@.skip(i + 1));
                assert(strings(out@.push(piece)) == strings(out@).push(piece@));
                assert(strings(out@).push(piece@) + pieces(text@.skip(i + 1), sep) == strings(out@)
                    + (seq![piece@] + pieces(text@.skip(i + 1), sep)));
            }
            out.push(piece);
            start = i + 1;
        }
        i = i + 1;
    }
    let piece = text.substring_char(start, n).to_owned();
    proof {
        let tail = text@.skip(start as int);
        assert forall|j: int| 0 <= j < n - start implies tail[j] != sep by {
            assert(tail[j] == text@[start + j]);
        }
        lemma_head_len(tail, sep, n - start);
        assert(tail == text@.subrange(start as int, n as int));
        assert(strings(out@.push(piece)) == strings(out@).push(piece@));
        assert(strings(out@).push(piece@) == strings(out@) + seq![piece@]);
    }
    out.push(piece);
    out
}

/// The table that holds the given pairs, each a key with its value.  Of two
/// pairs with one key the later one counts.
pub open spec fn table_of(pairs: Seq<(String, String)>) -> Map<Seq<char>, String>
    decreases pairs.len(),
{
    if pairs.len() == 0 {
        Map::empty()
    } else {
        table_of(pairs.drop_last()).insert(pairs.last().0@, pairs.last().1)
    }
}

/// The tokens of an answer of the server as a table, by their keys.
pub fn token_table(pairs: Vec<(String, String)>) -> (table: StringHashMap<String>)
    ensures
        table@ == table_of(pairs@),
{
    let mut pairs = pairs;
    let ghost all = pairs@;
    let mut rest: Vec<(String, String)> = Vec::new();
    while pairs.len() > 0
        invariant
            pairs@.len() + rest@.len() == all.len(),
            pairs@ == all.take(pairs@.len() as int),
            forall|j: int| 0 <= j < rest@.len() ==> rest@[j] == all[all.len() - 1 - j],
        decreases pairs@.len(),
    {
        let ghost k = pairs@.len() as int;
        let pair = pairs.pop().unwrap();
        rest.push(pair);
        proof {
            assert(pairs@ == all.take(k - 1));
        }
    }
    let mut table: StringHashMap<String> = StringHashMap::new();
    let ghost mut done: int = 0;
    while rest.len() > 0
        invariant
            0 <= done <= all.len(),
            rest@.len() == all.len() - done,
            forall|j: int| 0 <= j < rest@.len() ==> rest@[j] == all[all.len() - 1 - j],
            table@ == table_of(all.take(done)),
        decreases rest@.len(),
    {
        let pair = rest.pop().unwrap();
        proof {
            assert(pair == all[done]);
            assert(all.take(done + 1).drop_last() == all.take(done));
            assert(all.take(done + 1).last() == all[done]);
        }
        table.insert(pair.0, pair.1);
        proof {
            done = done + 1;
        }
    }
    proof {
        assert(all.take(done) == all);
    }
    table
}

/// The key under which the server hands out the token of a type.
pub open spec fn token_key(kind: Seq<char>) -> Seq<char> {
    kind + "token"@
}

/// The tokens of the given types, taken out of the table one after the
/// other, or `None` if the table lacks one at the time it is asked for.  A
/// type that occurs twice is therefore never served.
pub open spec fn taken(kinds: Seq<Seq<char>>, table: Map<Seq<char>, String>) -> Option<Seq<String>>
    decreases kinds.len(),
{
    if kinds.len() == 0 {
        Some(Seq::empty())
    } else {
        let key = token_key(kinds[0]);
        if table.contains_key(key) {
            match taken(kinds.skip(1), table.remove(key)) {
                Some(rest) => Some(seq![table[key]] + rest),
                None => None,
            }
        } else {
            None
        }
    }
}

/// The tokens that the server sent for the types in `types`, in the order of
/// the types.  `types` is the text that went into the query, and `table`
/// what came back.
pub fn take_tokens(types: &str, table: StringHashMap<String>) -> (out: Option<Vec<String>>)
    ensures
        out is Some <==> taken(pieces(types@, '|'), table@) is Some,
        out matches Some(tokens) ==> tokens@ == taken(pieces(types@, '|'), table@)->0,
{
    let mut left = table;
    let kinds = split(types, '|');
    let ghost all = strings(kinds@);
    let ghost start = table@;
    let mut out: Vec<String> = Vec::new();
    let n = kinds.len();
    let mut i: usize = 0;
    proof {
        assert(all.skip(0) == all);
        if taken(all, start) is Some {
            assert(out@ + taken(all, start)->0 == taken(all, start)->0);
        }
    }
    while i < n
        invariant
            i <= n,
            n == kinds@.len(),
            all == strings(kinds@),
            all == pieces(types@, '|'),
            start == table@,
            taken(all, start) == match taken(all.skip(i as int), left@) {
                Some(rest) => Some(out@ + rest),
                None => None,
            },
        decreases n - i,
    {
        let key = kinds[i].clone().concat("token");
        proof {
            assert(all.skip(i as int)[0] == kinds@[i as int]@);
            assert(key@ == token_key(all.skip(i as int)[0]));
            assert(all.skip(i as int).skip(1) == all.skip(i + 1));
        }
        let found = match left.get(key.as_str()) {
            Some(token) => Some(token.clone()),
            None => None,
        };
        match found {
            Some(token) => {
                proof {
                    let rest = taken(all.skip(i + 1), left@.remove(key@));
                    if rest is Some {
                        assert(out@.push(token) + rest->0 == out@ + (seq![token] + rest->0));
                    }
                }
                left.remove(key.as_str());
                out.push(token);
            },
            None => {
                proof {
                    assert(taken(all.skip(i as int), left@) is None);
                }
                return None;
            },
        }
        i = i + 1;
    }
    proof {
        assert(all.skip(n as int) == Seq::<Seq<char>>::empty());
        assert(out@ + Seq::<String>::empty() == out@);
    }
    Some(out)
}

} // verus!
