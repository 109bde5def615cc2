//! Reading the command line's `KEY=VALUE` environment settings.
use vstd::prelude::*;

use crate::text::{chars_of, string_from_chars};

verus! {

/// The position of the first `=` in `s`, or its length when there is none.
pub open spec fn assignment_split(s: Seq<char>) -> nat
    decreases s.len(),
{
    if s.len() == 0 {
        0
    } else if s[0] == '=' {
        0
    } else {
        1 + assignment_split(s.drop_first())
    }
}

/// `s` cut at its first `=` into a name and a value, if it has one.
pub open spec fn spec_parse_env_var(s: Seq<char>) -> Option<(Seq<char>, Seq<char>)> {
    let i = assignment_split(s);
    if i < s.len() {
        Some((s.take(i as int), s.skip(i as int + 1)))
    } else {
        None
    }
}

/// The settings of `entries` that have a `=`, in order.
pub open spec fn spec_parse_env_vars(entries: Seq<Seq<char>>) -> Seq<(Seq<char>, Seq<char>)>
    decreases entries.len(),
{
    if entries.len() == 0 {
        Seq::empty()
    } else {
        let rest = spec_parse_env_vars(entries.drop_last());
        match spec_parse_env_var(entries.last()) {
            Some(kv) => rest.push(kv),
            None => rest,
        }
    }
}

/// Where the first `=` is: every earlier character differs from it.
pub proof fn lemma_assignment_split(s: Seq<char>)
    ensures
        assignment_split(s) <= s.len(),
        assignment_split(s) < s.len() ==> s[assignment_split(s) as int] == '=',
        forall|j: int| 0 <= j < assignment_split(s) ==> s[j] != '=',
        assignment_split(s) == s.len() <==> !s.contains('='),
    decreases s.len(),
{
    if s.len() > 0 && s[0] != '=' {
        let t = s.drop_first();
        lemma_assignment_split(t);
        assert forall|j: int| 0 <= j < assignment_split(s) implies s[j] != '=' by {
            if j > 0 {
                assert(s[j] == t[j - 1]);
            }
        }
        if s.contains('=') {
            let j = choose|j: int| 0 <= j < s.len() && s[j] == '=';
            assert(t[j - 1] == '=');
        }
        if t.contains('=') {
            let j = choose|j: int| 0 <= j < t.len() && t[j] == '=';
            assert(s[j + 1] == '=');
        }
    } else if s.len() > 0 {
        assert(s.contains('=')) by { assert(s[0] == '='); }
    }
}

/// Splits a `KEY=VALUE` setting at its first `=`; a setting without one
/// gives `None`.
pub fn parse_env_var(s: &str) -> (r: Option<(String, String)>)
    ensures
        r is None <==> spec_parse_env_var(s@) is None,
        r matches Some((k, v)) ==> spec_parse_env_var(s@) == Some((k@, v@)),
        r is None <==> !s@.contains('='),
        r matches Some((k, v)) ==> k@ + seq!['='] + v@ == s@ && !k@.contains('='),
{
    proof { lemma_env_var_roundtrip(s@); }
    let chars = chars_of(s);
    let mut i: usize = 0;
    proof { lemma_assignment_split(s@); }
    while i < chars.len() && chars[i] != '='
        invariant
            chars@ == s@,
            0 <= i <= chars.len(),
            i <= assignment_split(s@) <= s@.len(),
            assignment_split(s@) < s@.len() ==> s@[assignment_split(s@) as int] == '=',
            forall|j: int| 0 <= j < i ==> chars@[j] != '=',
        decreases chars.len() - i,
    {
        i += 1;
    }
    proof {
        if i < chars.len() {
            assert(chars@[i as int] == '=');
            assert(i == assignment_split(s@)) by {
                if i < assignment_split(s@) {
                    assert(s@[i as int] != '=');
                }
            }
        } else {
            assert(i == assignment_split(s@));
        }
    }
    if i == chars.len() {
        None
    } else {
        let key = string_from_chars(&chars, 0, i);
        let value = string_from_chars(&chars, i + 1, chars.len());
        assert(key@ =~= s@.take(i as int));
        assert(value@ =~= s@.skip(i + 1));
        Some((key, value))
    }
}

/// The `KEY=VALUE` settings among `entries`, in order; entries without a
/// `=` are left out.
pub fn parse_env_vars(entries: &Vec<String>) -> (r: Vec<(String, String)>)
    ensures
        r@.map_values(|kv: (String, String)| (kv.0@, kv.1@)) == spec_parse_env_vars(entries.deep_view()),
{
    let mut r: Vec<(String, String)> = Vec::new();
    let mut i: usize = 0;
    let ghost all = entries.deep_view();
    while i < entries.len()
        invariant
            0 <= i <= entries.len(),
            all == entries.deep_view(),
            r@.map_values(|kv: (String, String)| (kv.0@, kv.1@)) == spec_parse_env_vars(all.take(i as int)),
        decreases entries.len() - i,
    {
        proof {
            assert(all.take(i + 1).drop_last() =~= all.take(i as int));
            assert(all.take(i + 1).last() == entries@[i as int]@);
        }
        let ghost before = r@;
        match parse_env_var(entries[i].as_str()) {
            Some(kv) => {
                r.push(kv);
                assert(r@.map_values(|kv: (String, String)| (kv.0@, kv.1@)) =~=
                    before.map_values(|kv: (String, String)| (kv.0@, kv.1@)).push((kv.0@, kv.1@)));
            },
            None => {},
        }
        i += 1;
    }
    assert(all.take(entries.len() as int) =~= all);
    r
}

/// Every text with a `=` is a setting and no other is; a setting is rebuilt
/// from its name and value, and the name holds no `=`.
pub proof fn lemma_env_var_roundtrip(s: Seq<char>)
    ensures
        spec_parse_env_var(s) is Some <==> s.contains('='),
        spec_parse_env_var(s) matches Some((k, v)) ==> k + seq!['='] + v == s && !k.contains('='),
{
    lemma_assignment_split(s);
    let i = assignment_split(s);
    if i < s.len() {
        let k = s.take(i as int);
        let v = s.skip(i as int + 1);
        assert(k + seq!['='] + v =~= s);
        if k.contains('=') {
            let j = choose|j: int| 0 <= j < k.len() && k[j] == '=';
            assert(s[j] == '=');
        }
    }
}

} // verus!
