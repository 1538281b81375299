use vstd::prelude::*;

use crate::datetime::ts_lt;
use crate::error::StageError;
use crate::resp::{
    digest_marked, image_rule_outcome, keep_names, keep_unmarked, keyword_candidates,
    keyword_marked, keyword_survivors, lemma_sort_desc_sorted, mark_filtered, name_marks_applied,
    place_filtered, select_marked, select_unmarked, sort_desc, Tag,
};
use crate::setting::{Config, Rule};
use crate::text::contains_seq;

verus! {

proof fn lemma_contains_drop_last(s: Seq<Tag>, x: Tag)
    requires
        s.len() > 0,
        s.drop_last().contains(x),
    ensures
        s.contains(x),
{
    let i = choose|i: int| 0 <= i < s.drop_last().len() && s.drop_last()[i] == x;
    assert(s[i] == x);
}

proof fn lemma_keep_unmarked_elements(orig: Seq<Tag>, sub: Seq<Tag>, mark: Seq<char>)
    ensures
        keep_unmarked(orig, sub, mark).len() <= sub.len(),
        forall|k: int|
            0 <= k < keep_unmarked(orig, sub, mark).len() ==> sub.contains(
                #[trigger] keep_unmarked(orig, sub, mark)[k],
            ) && !digest_marked(orig, mark, keep_unmarked(orig, sub, mark)[k].digest@),
    decreases sub.len(),
{
    if sub.len() > 0 {
        lemma_keep_unmarked_elements(orig, sub.drop_last(), mark);
        let rest = keep_unmarked(orig, sub.drop_last(), mark);
        let out = keep_unmarked(orig, sub, mark);
        assert forall|k: int|
            0 <= k < out.len() implies sub.contains(#[trigger] out[k]) && !digest_marked(
            orig,
            mark,
            out[k].digest@,
        ) by {
            if digest_marked(orig, mark, sub.last().digest@) {
                assert(out[k] == rest[k]);
                lemma_contains_drop_last(sub, rest[k]);
            } else {
                if k < rest.len() {
                    assert(out[k] == rest[k]);
                    lemma_contains_drop_last(sub, rest[k]);
                } else {
                    assert(out[k] == sub.last());
                    assert(sub[sub.len() - 1] == sub.last());
                    assert(sub.contains(sub.last()));
                }
            }
        }
    }
}

proof fn lemma_keep_unmarked_id(orig: Seq<Tag>, sub: Seq<Tag>, mark: Seq<char>)
    requires
        forall|k: int|
            0 <= k < sub.len() ==> !digest_marked(orig, mark, (#[trigger] sub[k]).digest@),
    ensures
        keep_unmarked(orig, sub, mark) == sub,
    decreases sub.len(),
{
    if sub.len() > 0 {
        assert forall|k: int|
            0 <= k < sub.drop_last().len() implies !digest_marked(
            orig,
            mark,
            (#[trigger] sub.drop_last()[k]).digest@,
        ) by {
            assert(sub.drop_last()[k] == sub[k]);
        }
        lemma_keep_unmarked_id(orig, sub.drop_last(), mark);
        assert(!digest_marked(orig, mark, sub.last().digest@)) by {
            assert(sub[sub.len() - 1] == sub.last());
        }
        assert(keep_unmarked(orig, sub, mark) == sub.drop_last().push(sub.last()));
        assert(sub.drop_last().push(sub.last()) =~= sub);
    }
}

/// LAW: keyword-rule filtering is idempotent. Applying one keyword rule
/// a second time changes nothing, because the first application left no
/// tag whose digest a marked tag shares.
pub proof fn lemma_keyword_rule_idempotent(tags: Seq<Tag>, mark: Seq<char>)
    ensures
        mark_filtered(mark_filtered(tags, mark), mark) == mark_filtered(tags, mark),
{
    let f = mark_filtered(tags, mark);
    lemma_keep_unmarked_elements(tags, tags, mark);
    assert forall|k: int|
        0 <= k < f.len() implies !digest_marked(f, mark, (#[trigger] f[k]).digest@) by {
        if digest_marked(f, mark, f[k].digest@) {
            let i = choose|i: int|
                0 <= i < f.len() && contains_seq(f[i].name@, mark) && f[i].digest@
                    == f[k].digest@;
            assert(tags.contains(f[i]));
            let j = choose|j: int| 0 <= j < tags.len() && tags[j] == f[i];
            assert(digest_marked(tags, mark, f[k].digest@)) by {
                assert(0 <= j < tags.len() && contains_seq(tags[j].name@, mark)
                    && tags[j].digest@ == f[k].digest@);
            }
            assert(false);
        }
    }
    lemma_keep_unmarked_id(f, f, mark);
}

/// LAW: alias safety. If two tags share a digest and one of them has the
/// keyword in its name, the filtered listing retains neither.
pub proof fn lemma_alias_safety(tags: Seq<Tag>, mark: Seq<char>, i: int, j: int)
    requires
        0 <= i < tags.len(),
        0 <= j < tags.len(),
        tags[i].digest@ == tags[j].digest@,
        contains_seq(tags[i].name@, mark),
    ensures
        !mark_filtered(tags, mark).contains(tags[i]),
        !mark_filtered(tags, mark).contains(tags[j]),
{
    let f = mark_filtered(tags, mark);
    lemma_keep_unmarked_elements(tags, tags, mark);
    assert(digest_marked(tags, mark, tags[j].digest@)) by {
        assert(0 <= i < tags.len() && contains_seq(tags[i].name@, mark) && tags[i].digest@
            == tags[j].digest@);
    }
    assert(digest_marked(tags, mark, tags[i].digest@)) by {
        assert(0 <= i < tags.len() && contains_seq(tags[i].name@, mark) && tags[i].digest@
            == tags[i].digest@);
    }
    if f.contains(tags[j]) {
        let k = choose|k: int| 0 <= k < f.len() && f[k] == tags[j];
        assert(!digest_marked(tags, mark, f[k].digest@));
        assert(false);
    }
    if f.contains(tags[i]) {
        let k = choose|k: int| 0 <= k < f.len() && f[k] == tags[i];
        assert(!digest_marked(tags, mark, f[k].digest@));
        assert(false);
    }
}

/// LAW: count-rule correctness. With `N` tags and keep-newest `num`,
/// the deletion candidate set has exactly `max(0, N - num)` tags, and
/// every retained tag was created no earlier than every candidate.
pub proof fn lemma_count_rule(tags: Seq<Tag>, num: int)
    requires
        0 <= num,
    ensures
        place_filtered(sort_desc(tags), num).len() == if tags.len() >= num {
            tags.len() - num
        } else {
            0
        },
        forall|a: int, b: int|
            0 <= a < num && 0 <= b < place_filtered(sort_desc(tags), num).len() ==> !ts_lt(
                (#[trigger] sort_desc(tags)[a]).created_time,
                (#[trigger] place_filtered(sort_desc(tags), num)[b]).created_time,
            ),
{
    lemma_sort_desc_sorted(tags);
    let s = sort_desc(tags);
    if s.len() > num {
        assert forall|a: int, b: int|
            0 <= a < num && 0 <= b < place_filtered(s, num).len() implies !ts_lt(
            (#[trigger] s[a]).created_time,
            (#[trigger] place_filtered(s, num)[b]).created_time,
        ) by {
            assert(place_filtered(s, num)[b] == s[num + b]);
        }
    }
}

proof fn lemma_select_unmarked_elements(orig: Seq<Tag>, rules: Seq<Rule>, sub: Seq<Tag>)
    ensures
        forall|k: int|
            0 <= k < select_unmarked(orig, rules, sub).len() ==> !keyword_marked(
                orig,
                rules,
                (#[trigger] select_unmarked(orig, rules, sub)[k]).digest@,
            ),
    decreases sub.len(),
{
    if sub.len() > 0 {
        lemma_select_unmarked_elements(orig, rules, sub.drop_last());
        let rest = select_unmarked(orig, rules, sub.drop_last());
        let out = select_unmarked(orig, rules, sub);
        assert forall|k: int|
            0 <= k < out.len() implies !keyword_marked(
            orig,
            rules,
            (#[trigger] out[k]).digest@,
        ) by {
            if !keyword_marked(orig, rules, sub.last().digest@) && k == rest.len() {
                assert(out[k] == sub.last());
            } else {
                assert(out[k] == rest[k]);
            }
        }
    }
}

proof fn lemma_select_marked_complete(orig: Seq<Tag>, rules: Seq<Rule>, sub: Seq<Tag>, k: int)
    requires
        0 <= k < sub.len(),
        keyword_marked(orig, rules, sub[k].digest@),
    ensures
        select_marked(orig, rules, sub).contains(sub[k]),
    decreases sub.len(),
{
    let out = select_marked(orig, rules, sub);
    if k == sub.len() - 1 {
        assert(sub[k] == sub.last());
        assert(out.last() == sub.last());
        assert(out[out.len() - 1] == sub[k]);
    } else {
        assert(sub.drop_last()[k] == sub[k]);
        lemma_select_marked_complete(orig, rules, sub.drop_last(), k);
        let rest = select_marked(orig, rules, sub.drop_last());
        let i = choose|i: int| 0 <= i < rest.len() && rest[i] == sub[k];
        assert(out[i] == sub[k]);
    }
}

/// LAW: alias safety holds at the policy's outcome too. If two tags
/// share a digest and one of them has a configured keyword in its name,
/// both are deletion candidates of the keyword rules and neither is
/// among the keyword survivors.
pub proof fn lemma_alias_safety_outcome(tags: Seq<Tag>, rules: Seq<Rule>, j0: int, i: int, j: int)
    requires
        0 <= j0 < rules.len(),
        0 <= i < tags.len(),
        0 <= j < tags.len(),
        tags[i].digest@ == tags[j].digest@,
        contains_seq(tags[i].name@, rules[j0].keyword@),
    ensures
        keyword_candidates(tags, rules).contains(tags[i]),
        keyword_candidates(tags, rules).contains(tags[j]),
        !keyword_survivors(tags, rules).contains(tags[i]),
        !keyword_survivors(tags, rules).contains(tags[j]),
{
    assert(digest_marked(tags, rules[j0].keyword@, tags[j].digest@)) by {
        assert(0 <= i < tags.len() && contains_seq(tags[i].name@, rules[j0].keyword@)
            && tags[i].digest@ == tags[j].digest@);
    }
    assert(keyword_marked(tags, rules, tags[i].digest@));
    assert(keyword_marked(tags, rules, tags[j].digest@));
    lemma_select_marked_complete(tags, rules, tags, i);
    lemma_select_marked_complete(tags, rules, tags, j);
    lemma_select_unmarked_elements(tags, rules, tags);
    let surv = keyword_survivors(tags, rules);
    if surv.contains(tags[i]) {
        let k = choose|k: int| 0 <= k < surv.len() && surv[k] == tags[i];
        assert(!keyword_marked(tags, rules, surv[k].digest@));
        assert(false);
    }
    if surv.contains(tags[j]) {
        let k = choose|k: int| 0 <= k < surv.len() && surv[k] == tags[j];
        assert(!keyword_marked(tags, rules, surv[k].digest@));
        assert(false);
    }
}

/// LAW: no survivor of a repository keyword rule contains the
/// configured substring.
pub proof fn lemma_no_survivor_contains_mark(rs: Seq<String>, mark: Seq<char>)
    ensures
        forall|k: int|
            0 <= k < keep_names(rs, mark).len() ==> !contains_seq(
                (#[trigger] keep_names(rs, mark)[k])@,
                mark,
            ),
    decreases rs.len(),
{
    if rs.len() > 0 {
        lemma_no_survivor_contains_mark(rs.drop_last(), mark);
        let rest = keep_names(rs.drop_last(), mark);
        let out = keep_names(rs, mark);
        assert forall|k: int|
            0 <= k < out.len() implies !contains_seq((#[trigger] out[k])@, mark) by {
            if !contains_seq(rs.last()@, mark) && k == rest.len() {
                assert(out[k] == rs.last());
            } else {
                assert(out[k] == rest[k]);
            }
        }
    }
}

proof fn lemma_keep_names_id(rs: Seq<String>, mark: Seq<char>)
    requires
        forall|k: int| 0 <= k < rs.len() ==> !contains_seq((#[trigger] rs[k])@, mark),
    ensures
        keep_names(rs, mark) == rs,
    decreases rs.len(),
{
    if rs.len() > 0 {
        assert forall|k: int|
            0 <= k < rs.drop_last().len() implies !contains_seq(
            (#[trigger] rs.drop_last()[k])@,
            mark,
        ) by {
            assert(rs.drop_last()[k] == rs[k]);
        }
        lemma_keep_names_id(rs.drop_last(), mark);
        assert(!contains_seq(rs.last()@, mark)) by {
            assert(rs[rs.len() - 1] == rs.last());
        }
        assert(keep_names(rs, mark) == rs.drop_last().push(rs.last()));
        assert(rs.drop_last().push(rs.last()) =~= rs);
    }
}

/// LAW: repository keyword filtering is idempotent too; the first pass
/// leaves no name containing the substring, so a second pass keeps all.
pub proof fn lemma_repository_filter_idempotent(rs: Seq<String>, mark: Seq<char>)
    ensures
        keep_names(keep_names(rs, mark), mark) == keep_names(rs, mark),
{
    lemma_no_survivor_contains_mark(rs, mark);
    lemma_keep_names_id(keep_names(rs, mark), mark);
}

proof fn lemma_name_marks_applied_empty(rules: Seq<Rule>)
    ensures
        name_marks_applied(Seq::<String>::empty(), rules).len() == 0,
    decreases rules.len(),
{
    if rules.len() > 0 {
        assert(keep_names(Seq::<String>::empty(), rules[0].keyword@)
            =~= Seq::<String>::empty());
        lemma_name_marks_applied_empty(rules.drop_first());
    }
}

/// LAW: an empty repository catalog yields zero surviving names under
/// any configured policy, or the policy error when none is configured;
/// the stages downstream then see only a closing queue and finish.
pub proof fn lemma_empty_catalog(config: Config)
    ensures
        match image_rule_outcome(Seq::<String>::empty(), config) {
            Ok(names) => names.len() == 0,
            Err(e) => e == StageError::PolicyError,
        },
{
    match config.filter {
        None => {},
        Some(f) => match f.image_name.keep.rules {
            None => {},
            Some(rules) => lemma_name_marks_applied_empty(rules@),
        },
    }
}

} // verus!
