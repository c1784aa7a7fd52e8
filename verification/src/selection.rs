//! Selective sync: the changes a user deselected after a scan are kept out
//! of the next sync run through exclusion rules added to its job.

use vstd::prelude::*;
use crate::models::SyncChange;
use crate::rc_api::{RcRequest, Scalar, members, member_value, scalar_of};
use crate::rc_value::{RcValue, push_member};

verus! {

/// A character that rclone's filter patterns read as a glob character.
pub open spec fn is_glob_special(c: char) -> bool {
    c == '\\' || c == '*' || c == '?' || c == '[' || c == ']' || c == '{' || c == '}'
}

/// How one character is written in a filter pattern that names it
/// literally: a glob character behind a backslash, any other as it is.
pub open spec fn escaped_char(c: char) -> Seq<char> {
    if is_glob_special(c) {
        seq!['\\', c]
    } else {
        seq![c]
    }
}

/// `s` written as a filter pattern that matches it literally.
pub open spec fn glob_escaped(s: Seq<char>) -> Seq<char>
    decreases s.len(),
{
    if s.len() == 0 {
        Seq::empty()
    } else {
        escaped_char(s[0]) + glob_escaped(s.drop_first())
    }
}

/// The text a pattern written by `glob_escaped` names: each backslash
/// stands for the character after it.
pub open spec fn glob_unescaped(s: Seq<char>) -> Seq<char>
    decreases s.len(),
{
    if s.len() == 0 {
        Seq::empty()
    } else if s.len() >= 2 && s[0] == '\\' {
        seq![s[1]] + glob_unescaped(s.skip(2))
    } else {
        seq![s[0]] + glob_unescaped(s.drop_first())
    }
}

/// The rclone filter rule that excludes the path `p` (relative to the root
/// of the sync) and nothing else: `- /` followed by `p` written literally.
pub open spec fn exclude_rule(p: Seq<char>) -> Seq<char> {
    seq!['-', ' ', '/'] + glob_escaped(p)
}

proof fn lemma_escaped_push(s: Seq<char>, c: char)
    ensures
        glob_escaped(s.push(c)) == glob_escaped(s) + escaped_char(c),
    decreases s.len(),
{
    if s.len() == 0 {
        assert(s.push(c)[0] == c);
        assert(glob_escaped(Seq::<char>::empty()) =~= Seq::<char>::empty());
        assert(s.push(c).drop_first() =~= Seq::<char>::empty());
        assert(glob_escaped(s.push(c)) =~= escaped_char(c) + Seq::<char>::empty());
        assert(glob_escaped(s) + escaped_char(c) =~= escaped_char(c));
    } else {
        lemma_escaped_push(s.drop_first(), c);
        assert(s.push(c).drop_first() =~= s.drop_first().push(c));
        assert(s.push(c)[0] == s[0]);
        assert(glob_escaped(s.push(c)) =~= glob_escaped(s) + escaped_char(c));
    }
}

/// In an exclusion rule each of rclone's glob characters (`\\`, `*`, `?`,
/// `[`, `]`, `{`, `}`) is written behind a backslash, so it matches only
/// itself; every other character is written as it is.
pub proof fn law_glob_characters_escaped(c: char)
    ensures
        c == '\\' || c == '*' || c == '?' || c == '[' || c == ']' || c == '{' || c == '}'
            ==> escaped_char(c) == seq!['\\', c],
        !(c == '\\' || c == '*' || c == '?' || c == '[' || c == ']' || c == '{' || c == '}')
            ==> escaped_char(c) == seq![c],
        glob_escaped(seq![c]) == escaped_char(c),
{
    let s = seq![c];
    assert(s.len() == 1 && s[0] == c);
    assert(s.drop_first() =~= Seq::<char>::empty());
    assert(glob_escaped(s.drop_first()) =~= Seq::<char>::empty());
    assert(glob_escaped(s) == escaped_char(s[0]) + glob_escaped(s.drop_first()));
    assert(escaped_char(c) + Seq::<char>::empty() =~= escaped_char(c));
}

/// An exclusion rule is `- /` followed by the path written literally.
pub proof fn law_exclusion_rule_shape(p: Seq<char>)
    ensures
        exclude_rule(p).take(3) == seq!['-', ' ', '/'],
        exclude_rule(p).skip(3) == glob_escaped(p),
{
    assert(exclude_rule(p).take(3) =~= seq!['-', ' ', '/']);
    assert(exclude_rule(p).skip(3) =~= glob_escaped(p));
}

/// Reading back a path written as a literal pattern gives the path.
pub proof fn law_escape_round_trip(s: Seq<char>)
    ensures
        glob_unescaped(glob_escaped(s)) == s,
    decreases s.len(),
{
    if s.len() > 0 {
        law_escape_round_trip(s.drop_first());
        let rest = glob_escaped(s.drop_first());
        let e = glob_escaped(s);
        assert(e == escaped_char(s[0]) + rest);
        if is_glob_special(s[0]) {
            assert(e.skip(2) =~= rest);
            assert(e[0] == '\\' && e[1] == s[0]);
        } else {
            assert(e.drop_first() =~= rest);
            assert(e[0] == s[0]);
        }
        assert(glob_unescaped(e) =~= s);
    }
}

/// Two different paths get different exclusion rules, so each rule keeps
/// out the one path it was made for.
pub proof fn law_exclusion_rules_distinct(p: Seq<char>, q: Seq<char>)
    requires
        p != q,
    ensures
        exclude_rule(p) != exclude_rule(q),
{
    law_escape_round_trip(p);
    law_escape_round_trip(q);
    if exclude_rule(p) == exclude_rule(q) {
        assert(exclude_rule(p).skip(3) =~= glob_escaped(p));
        assert(exclude_rule(q).skip(3) =~= glob_escaped(q));
    }
}

/// The rule that keeps the path `p` out of a sync job.
pub fn exclude_rule_text(p: &str) -> (r: String)
    ensures
        r@ == exclude_rule(p@),
{
    let n = p.unicode_len();
    let mut r = "- /".to_owned();
    proof {
        reveal_strlit("- /");
        assert("- /"@ =~= seq!['-', ' ', '/']);
        assert(p@.take(0) =~= Seq::<char>::empty());
    }
    let mut i: usize = 0;
    while i < n
        invariant
            n == p@.len(),
            i <= n,
            r@ == seq!['-', ' ', '/'] + glob_escaped(p@.take(i as int)),
        decreases n - i,
    {
        let c = p.get_char(i);
        let piece = p.substring_char(i, i + 1);
        proof {
            assert(piece@ =~= seq![c]);
            assert(p@.take(i + 1) =~= p@.take(i as int).push(c));
            lemma_escaped_push(p@.take(i as int), c);
            reveal_strlit("\\");
        }
        if c == '\\' || c == '*' || c == '?' || c == '[' || c == ']' || c == '{' || c == '}' {
            r.append("\\");
            r.append(piece);
            proof {
                assert("\\"@ =~= seq!['\\']);
                assert(r@ =~= seq!['-', ' ', '/'] + glob_escaped(p@.take(i + 1)));
            }
        } else {
            r.append(piece);
            proof {
                assert(r@ =~= seq!['-', ' ', '/'] + glob_escaped(p@.take(i + 1)));
            }
        }
        i = i + 1;
    }
    proof {
        assert(p@.take(n as int) =~= p@);
    }
    r
}

/// The paths of the changes that the user deselected, in order.
pub open spec fn deselected_of(changes: Seq<SyncChange>) -> Seq<Seq<char>>
    decreases changes.len(),
{
    if changes.len() == 0 {
        Seq::empty()
    } else {
        let prev = deselected_of(changes.drop_last());
        if changes.last().is_selected {
            prev
        } else {
            prev.push(changes.last().file_path@)
        }
    }
}

/// Some change of `changes` concerns the path `p` and was deselected.
pub open spec fn deselects(changes: Seq<SyncChange>, p: Seq<char>) -> bool {
    exists|i: int| 0 <= i < changes.len() && !(#[trigger] changes[i]).is_selected && changes[i].file_path@ == p
}

/// The rules that keep the paths `d` out of a job, in order.
pub open spec fn exclusion_rules(d: Seq<Seq<char>>) -> Seq<Scalar> {
    d.map_values(|q: Seq<char>| Scalar::Text(exclude_rule(q)))
}

proof fn lemma_deselected_contains(changes: Seq<SyncChange>, p: Seq<char>)
    ensures
        deselected_of(changes).contains(p) <==> deselects(changes, p),
    decreases changes.len(),
{
    if changes.len() > 0 {
        let prev = changes.drop_last();
        let last = changes.last();
        lemma_deselected_contains(prev, p);
        if deselects(prev, p) {
            let i = choose|i: int| 0 <= i < prev.len() && !(#[trigger] prev[i]).is_selected && prev[i].file_path@ == p;
            assert(changes[i] == prev[i]);
        }
        if deselects(changes, p) {
            let i = choose|i: int| 0 <= i < changes.len() && !(#[trigger] changes[i]).is_selected && changes[i].file_path@ == p;
            if i < changes.len() - 1 {
                assert(prev[i] == changes[i]);
            } else {
                assert(changes[i] == last);
            }
        }
        if !last.is_selected {
            let d = deselected_of(changes);
            assert(d == deselected_of(prev).push(last.file_path@));
            assert(d[d.len() - 1] == last.file_path@);
            assert(changes[changes.len() - 1] == last);
            if deselected_of(prev).contains(p) {
                let j = choose|j: int| 0 <= j < deselected_of(prev).len() && deselected_of(prev)[j] == p;
                assert(d[j] == p);
            }
            if d.contains(p) {
                let j = choose|j: int| 0 <= j < d.len() && d[j] == p;
                if j < d.len() - 1 {
                    assert(deselected_of(prev)[j] == p);
                }
            }
        }
    }
}

/// A job built with the deselected paths of `changes` carries the rule that
/// keeps `p` out exactly where the user deselected a change of `p`: every
/// deselected change is excluded, and no path whose changes were all kept
/// selected is.
pub proof fn law_selection_excludes_exactly(changes: Seq<SyncChange>, p: Seq<char>)
    ensures
        exclusion_rules(deselected_of(changes)).contains(Scalar::Text(exclude_rule(p))) <==> deselects(
            changes,
            p,
        ),
{
    lemma_deselected_contains(changes, p);
    let d = deselected_of(changes);
    let rules = exclusion_rules(d);
    if d.contains(p) {
        let j = choose|j: int| 0 <= j < d.len() && d[j] == p;
        assert(rules[j] == Scalar::Text(exclude_rule(p)));
    }
    if rules.contains(Scalar::Text(exclude_rule(p))) {
        let j = choose|j: int| 0 <= j < rules.len() && rules[j] == Scalar::Text(exclude_rule(p));
        assert(rules[j] == Scalar::Text(exclude_rule(d[j])));
        if d[j] != p {
            law_exclusion_rules_distinct(d[j], p);
        }
        assert(d[j] == p);
    }
}

/// The paths of the scanned changes that the user deselected, in order.
pub fn deselected_paths(changes: &Vec<SyncChange>) -> (r: Vec<String>)
    ensures
        r@.map_values(|s: String| s@) == deselected_of(changes@),
{
    let mut out: Vec<String> = Vec::new();
    let mut i: usize = 0;
    while i < changes.len()
        invariant
            i <= changes@.len(),
            out@.map_values(|s: String| s@) == deselected_of(changes@.take(i as int)),
        decreases changes@.len() - i,
    {
        proof {
            assert(changes@.take(i + 1).drop_last() =~= changes@.take(i as int));
            assert(changes@.take(i + 1).last() == changes@[i as int]);
        }
        if !changes[i].is_selected {
            let ghost before = out@;
            out.push(changes[i].file_path.clone());
            proof {
                assert(out@.map_values(|s: String| s@) =~= before.map_values(|s: String| s@).push(
                    changes@[i as int].file_path@,
                ));
            }
        }
        i = i + 1;
    }
    proof {
        assert(changes@.take(changes@.len() as int) =~= changes@);
    }
    out
}

/// What the items of an array hold, in order; nothing for any other value.
pub open spec fn array_scalars(v: RcValue) -> Seq<Scalar> {
    match v {
        RcValue::Array(a) => a@.map_values(|x: RcValue| scalar_of(x)),
        _ => Seq::empty(),
    }
}

/// The member a job gets for deselected paths: `_filter`, where there is
/// any.
pub open spec fn exclusion_members(d: Seq<Seq<char>>) -> Seq<(Seq<char>, Scalar)> {
    if d.len() == 0 {
        Seq::empty()
    } else {
        seq![("_filter"@, Scalar::Nested)]
    }
}

/// Where there are deselected paths, the member at `at` is
/// `{FilterRule: [<the exclusion rule of each path>, ...]}`.
pub open spec fn exclusions_at(params: RcValue, at: int, d: Seq<Seq<char>>) -> bool {
    d.len() > 0 ==> {
        &&& members(member_value(params, at)) == seq![("FilterRule"@, Scalar::Nested)]
        &&& array_scalars(member_value(member_value(params, at), 0)) == d.map_values(
            |p: Seq<char>| Scalar::Text(exclude_rule(p)),
        )
    }
}

/// `req` with the deselected paths kept out: where there are any, the
/// member `_filter: {FilterRule: [...]}` is appended, holding the exclusion
/// rule of each path in order; the other members stay as they were.
pub fn with_exclusions(req: RcRequest, deselected: &Vec<String>) -> (r: RcRequest)
    requires
        req.params is Object,
    ensures
        r.endpoint == req.endpoint,
        r.params is Object,
        members(r.params) == members(req.params) + exclusion_members(
            deselected@.map_values(|s: String| s@),
        ),
        forall|i: int| 0 <= i < members(req.params).len() ==> member_value(r.params, i)
            == member_value(req.params, i),
        exclusions_at(r.params, members(req.params).len() as int, deselected@.map_values(|s: String| s@)),
{
    let ghost d = deselected@.map_values(|s: String| s@);
    if deselected.len() == 0 {
        assert(exclusion_members(d) =~= Seq::<(Seq<char>, Scalar)>::empty());
        assert(members(req.params) + exclusion_members(d) =~= members(req.params));
        return req;
    }
    let mut rules: Vec<RcValue> = Vec::new();
    let mut i: usize = 0;
    while i < deselected.len()
        invariant
            i <= deselected@.len(),
            d == deselected@.map_values(|s: String| s@),
            rules@.map_values(|x: RcValue| scalar_of(x)) == d.take(i as int).map_values(
                |p: Seq<char>| Scalar::Text(exclude_rule(p)),
            ),
        decreases deselected@.len() - i,
    {
        let rule = exclude_rule_text(deselected[i].as_str());
        let ghost before = rules@;
        let ghost rv = rule@;
        assert(d[i as int] == deselected@[i as int]@);
        let item = RcValue::Str(rule);
        assert(scalar_of(item) == Scalar::Text(exclude_rule(d[i as int])));
        rules.push(item);
        proof {
            assert(rules@ == before.push(item));
            assert(rules@.map_values(|x: RcValue| scalar_of(x)) =~= before.map_values(
                |x: RcValue| scalar_of(x),
            ).push(scalar_of(item)));
            assert(d.take(i + 1).map_values(|p: Seq<char>| Scalar::Text(exclude_rule(p))) =~= d.take(
                i as int,
            ).map_values(|p: Seq<char>| Scalar::Text(exclude_rule(p))).push(
                Scalar::Text(exclude_rule(d[i as int])),
            ));
            assert(d.take(i + 1) =~= d.take(i as int).push(d[i as int]));
            assert(rules@.map_values(|x: RcValue| scalar_of(x)) =~= d.take(i + 1).map_values(
                |p: Seq<char>| Scalar::Text(exclude_rule(p)),
            ));
        }
        i = i + 1;
    }
    proof {
        assert(d.take(d.len() as int) =~= d);
    }
    let mut inner: Vec<(String, RcValue)> = Vec::new();
    push_member(&mut inner, "FilterRule", RcValue::Array(rules));
    let filter = RcValue::Object(inner);
    proof {
        assert(members(filter) =~= seq![("FilterRule"@, Scalar::Nested)]);
        assert(member_value(filter, 0) == RcValue::Array(rules));
    }
    let RcRequest { endpoint, params } = req;
    match params {
        RcValue::Object(mut m) => {
            let ghost m0 = m@;
            push_member(&mut m, "_filter", filter);
            let r = RcRequest { endpoint, params: RcValue::Object(m) };
            proof {
                assert(m@.drop_last() == m0);
                assert(members(r.params) =~= m0.map_values(|x: (String, RcValue)| (x.0@, scalar_of(x.1)))
                    + exclusion_members(d));
                assert forall|j: int| 0 <= j < m0.len() implies member_value(r.params, j)
                    == m0[j].1 by {
                    assert(m@[j] == m@.drop_last()[j]);
                }
            }
            r
        },
        _ => RcRequest { endpoint, params },
    }
}

} // verus!
