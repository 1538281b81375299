use vstd::prelude::*;
use vstd::string::StringExecFns;

use std::sync::Arc;

use crate::datetime::{ts_lt, Timestamp};
use crate::error::StageError;
use crate::setting::{Config, Rule};
use crate::text::{contains_keyword, contains_seq, str_equal};

verus! {

/// A credential that can present itself as a bearer string.
pub trait Token {
    /// The bearer string carried by this credential.
    spec fn spec_token(&self) -> Seq<char>;

    fn token(&self) -> (r: String)
        ensures
            r@ == self.spec_token(),
    ;
}

/// The start of the credential chain: no token yet.
pub struct Primary;

impl Token for Primary {
    open spec fn spec_token(&self) -> Seq<char> {
        Seq::empty()
    }

    fn token(&self) -> (r: String) {
        String::new()
    }
}

/// The credential minted by the client-credentials exchange with the
/// identity endpoint.
pub struct LoginToken {
    pub access_token: String,
}

impl LoginToken {
    pub fn new(access_token: String) -> (r: Self)
        ensures
            r.access_token == access_token,
    {
        LoginToken { access_token }
    }
}

impl Token for LoginToken {
    open spec fn spec_token(&self) -> Seq<char> {
        self.access_token@
    }

    fn token(&self) -> (r: String) {
        self.access_token.clone()
    }
}

/// The registry-scoped credential obtained by exchanging a login token.
pub struct RefreshToken {
    pub refresh_token: String,
}

impl RefreshToken {
    pub fn new(refresh_token: String) -> (r: Self)
        ensures
            r.refresh_token == refresh_token,
    {
        RefreshToken { refresh_token }
    }
}

impl Token for RefreshToken {
    open spec fn spec_token(&self) -> Seq<char> {
        self.refresh_token@
    }

    fn token(&self) -> (r: String) {
        self.refresh_token.clone()
    }
}

/// The per-call credential minted for one scope; used once and dropped.
pub struct FinalToken {
    pub access_token: String,
}

impl FinalToken {
    pub fn new(access_token: String) -> (r: Self)
        ensures
            r.access_token == access_token,
    {
        FinalToken { access_token }
    }
}

impl Token for FinalToken {
    open spec fn spec_token(&self) -> Seq<char> {
        self.access_token@
    }

    fn token(&self) -> (r: String) {
        self.access_token.clone()
    }
}

/// The repository catalog of a registry.
pub struct RepositoriesList {
    pub repositories: Vec<String>,
}

/// The names of `rs` that do not contain `mark`, in order.
pub open spec fn keep_names(rs: Seq<String>, mark: Seq<char>) -> Seq<String>
    decreases rs.len(),
{
    if rs.len() == 0 {
        Seq::empty()
    } else {
        let rest = keep_names(rs.drop_last(), mark);
        if contains_seq(rs.last()@, mark) {
            rest
        } else {
            rest.push(rs.last())
        }
    }
}

/// `rs` after the keyword of each rule, in order, has excluded the names
/// containing it.
pub open spec fn name_marks_applied(rs: Seq<String>, rules: Seq<Rule>) -> Seq<String>
    decreases rules.len(),
{
    if rules.len() == 0 {
        rs
    } else {
        name_marks_applied(keep_names(rs, rules[0].keyword@), rules.drop_first())
    }
}

/// What filtering the catalog by the configured policy yields: the
/// surviving names, or `PolicyError` when no policy, or no repository
/// keyword-rule list, is configured.
pub open spec fn image_rule_outcome(rs: Seq<String>, config: Config) -> Result<
    Seq<String>,
    StageError,
> {
    match config.filter {
        None => Err(StageError::PolicyError),
        Some(f) => match f.image_name.keep.rules {
            None => Err(StageError::PolicyError),
            Some(rules) => Ok(name_marks_applied(rs, rules@)),
        },
    }
}

proof fn lemma_name_marks_applied_push(rs: Seq<String>, rules: Seq<Rule>, r: Rule)
    ensures
        name_marks_applied(rs, rules.push(r)) == keep_names(
            name_marks_applied(rs, rules),
            r.keyword@,
        ),
    decreases rules.len(),
{
    if rules.len() == 0 {
        assert(rules.push(r).drop_first() =~= rules);
        assert(rules.push(r)[0] == r);
        assert(name_marks_applied(rs, rules) == rs);
        assert(name_marks_applied(rs, rules.push(r)) == name_marks_applied(
            keep_names(rs, r.keyword@),
            rules,
        ));
        assert(name_marks_applied(keep_names(rs, r.keyword@), rules) == keep_names(
            rs,
            r.keyword@,
        ));
    } else {
        assert(rules.push(r).drop_first() =~= rules.drop_first().push(r));
        assert(rules.push(r)[0] == rules[0]);
        lemma_name_marks_applied_push(keep_names(rs, rules[0].keyword@), rules.drop_first(), r);
        assert(name_marks_applied(rs, rules.push(r)) == name_marks_applied(
            keep_names(rs, rules[0].keyword@),
            rules.drop_first().push(r),
        ));
        assert(name_marks_applied(rs, rules) == name_marks_applied(
            keep_names(rs, rules[0].keyword@),
            rules.drop_first(),
        ));
    }
}

impl RepositoriesList {
    pub fn repositories(self) -> (r: Vec<String>)
        ensures
            r == self.repositories,
    {
        self.repositories
    }

    /// Drop every repository name that contains `mark`.
    pub fn filter_image_name_by_mark(self, mark: &str) -> (r: Self)
        ensures
            r.repositories@ == keep_names(self.repositories@, mark@),
    {
        let mut out: Vec<String> = Vec::new();
        let n = self.repositories.len();
        let mut i: usize = 0;
        while i < n
            invariant
                i <= n,
                n == self.repositories@.len(),
                out@ == keep_names(self.repositories@.subrange(0, i as int), mark@),
            decreases n - i,
        {
            proof {
                assert(self.repositories@.subrange(0, i as int + 1).drop_last()
                    =~= self.repositories@.subrange(0, i as int));
                assert(self.repositories@.subrange(0, i as int + 1).last()
                    == self.repositories@[i as int]);
            }
            if !contains_keyword(self.repositories[i].as_str(), mark) {
                out.push(self.repositories[i].clone());
            }
            i += 1;
        }
        proof {
            assert(self.repositories@.subrange(0, n as int) =~= self.repositories@);
        }
        RepositoriesList { repositories: out }
    }

    /// Apply the configured repository rules, each keyword in order.
    pub fn filter_by_image_rule(self, config: Arc<Config>) -> (r: Result<Self, StageError>)
        ensures
            match image_rule_outcome(self.repositories@, *config) {
                Ok(names) => r matches Ok(out) && out.repositories@ == names,
                Err(e) => r matches Err(e2) && e2 == e,
            },
    {
        let ghost orig = self.repositories@;
        match &(*config).filter {
            None => Err(StageError::PolicyError),
            Some(f) => match &f.image_name.keep.rules {
                None => Err(StageError::PolicyError),
                Some(rules) => {
                    let mut cur = self;
                    let n = rules.len();
                    let mut i: usize = 0;
                    while i < n
                        invariant
                            i <= n,
                            n == rules@.len(),
                            cur.repositories@ == name_marks_applied(orig, rules@.subrange(0, i as int)),
                        decreases n - i,
                    {
                        proof {
                            assert(rules@.subrange(0, i as int + 1) =~= rules@.subrange(
                                0,
                                i as int,
                            ).push(rules@[i as int]));
                            lemma_name_marks_applied_push(
                                orig,
                                rules@.subrange(0, i as int),
                                rules@[i as int],
                            );
                        }
                        cur = cur.filter_image_name_by_mark(rules[i].keyword.as_str());
                        i += 1;
                    }
                    proof {
                        assert(rules@.subrange(0, n as int) =~= rules@);
                    }
                    Ok(cur)
                },
            },
        }
    }
}

/// One tag of a repository: its name, the digest of the manifest it
/// points at, and when it was created.
pub struct Tag {
    pub name: String,
    pub digest: String,
    pub created_time: Timestamp,
}

impl Tag {
    /// A copy equal to this tag.
    pub fn duplicate(&self) -> (r: Tag)
        ensures
            r == *self,
    {
        Tag {
            name: self.name.clone(),
            digest: self.digest.clone(),
            created_time: self.created_time,
        }
    }
}

/// The tag listing of one repository.
pub struct TagList {
    pub registry: String,
    pub image_name: String,
    pub tags: Vec<Tag>,
}

/// `t` inserted into `s` behind every tag created no earlier than `t`:
/// the insertion step of a stable descending insertion sort.
pub open spec fn insert_desc(s: Seq<Tag>, t: Tag) -> Seq<Tag>
    decreases s.len(),
{
    if s.len() == 0 {
        seq![t]
    } else if ts_lt(s[0].created_time, t.created_time) {
        seq![t] + s
    } else {
        seq![s[0]] + insert_desc(s.drop_first(), t)
    }
}

/// `s` ordered by creation time, newest first; tags of equal creation
/// time keep their original order.
pub open spec fn sort_desc(s: Seq<Tag>) -> Seq<Tag>
    decreases s.len(),
{
    if s.len() == 0 {
        s
    } else {
        insert_desc(sort_desc(s.drop_last()), s.last())
    }
}

/// Newest first: no tag is followed by a strictly newer one.
pub open spec fn sorted_desc(s: Seq<Tag>) -> bool {
    forall|i: int, j: int|
        0 <= i < j < s.len() ==> !ts_lt((#[trigger] s[i]).created_time, (#[trigger] s[j]).created_time)
}

/// `x` is at least as new as every tag of `s`.
pub open spec fn ts_ge_all(x: Timestamp, s: Seq<Tag>) -> bool {
    forall|k: int| 0 <= k < s.len() ==> !ts_lt(x, (#[trigger] s[k]).created_time)
}

proof fn lemma_insert_desc_sorted(s: Seq<Tag>, t: Tag)
    requires
        sorted_desc(s),
    ensures
        sorted_desc(insert_desc(s, t)),
        insert_desc(s, t).len() == s.len() + 1,
        forall|x: Timestamp|
            ts_ge_all(x, s) && !ts_lt(x, t.created_time) ==> ts_ge_all(x, insert_desc(s, t)),
    decreases s.len(),
{
    if s.len() == 0 {
    } else if ts_lt(s[0].created_time, t.created_time) {
        let out = seq![t] + s;
        assert forall|i: int, j: int| 0 <= i < j < out.len() implies !ts_lt(
            out[i].created_time,
            out[j].created_time,
        ) by {
            if i == 0 {
                assert(out[0] == t);
                assert(out[j] == s[j - 1]);
                if j - 1 > 0 {
                    assert(!ts_lt(s[0].created_time, s[j - 1].created_time));
                }
            } else {
                assert(out[i] == s[i - 1]);
                assert(out[j] == s[j - 1]);
            }
        }
    } else {
        assert(sorted_desc(s.drop_first())) by {
            assert(forall|k: int|
                0 <= k < s.len() - 1 ==> #[trigger] s.drop_first()[k] == s[k + 1]);
        }
        lemma_insert_desc_sorted(s.drop_first(), t);
        let w = insert_desc(s.drop_first(), t);
        let out = seq![s[0]] + w;
        assert(ts_ge_all(s[0].created_time, s.drop_first())) by {
            assert(forall|k: int|
                0 <= k < s.len() - 1 ==> #[trigger] s.drop_first()[k] == s[k + 1]);
        }
        assert(ts_ge_all(s[0].created_time, w));
        assert forall|i: int, j: int| 0 <= i < j < out.len() implies !ts_lt(
            out[i].created_time,
            out[j].created_time,
        ) by {
            if i == 0 {
                assert(out[j] == w[j - 1]);
            } else {
                assert(out[i] == w[i - 1]);
                assert(out[j] == w[j - 1]);
            }
        }
        assert forall|x: Timestamp|
            ts_ge_all(x, s) && !ts_lt(x, t.created_time) implies ts_ge_all(x, out) by {
            assert(ts_ge_all(x, s.drop_first())) by {
                assert(forall|k: int|
                    0 <= k < s.len() - 1 ==> #[trigger] s.drop_first()[k] == s[k + 1]);
            }
            assert(ts_ge_all(x, w));
            assert forall|k: int| 0 <= k < out.len() implies !ts_lt(
                x,
                out[k].created_time,
            ) by {
                if k == 0 {
                    assert(out[0] == s[0]);
                } else {
                    assert(out[k] == w[k - 1]);
                }
            }
        }
    }
}

/// The sorted listing keeps its length and is ordered newest first.
pub proof fn lemma_sort_desc_sorted(s: Seq<Tag>)
    ensures
        sorted_desc(sort_desc(s)),
        sort_desc(s).len() == s.len(),
    decreases s.len(),
{
    if s.len() > 0 {
        lemma_sort_desc_sorted(s.drop_last());
        lemma_insert_desc_sorted(sort_desc(s.drop_last()), s.last());
    }
}

proof fn lemma_insert_desc_at(s: Seq<Tag>, t: Tag, j: int)
    requires
        0 <= j <= s.len(),
        forall|k: int| 0 <= k < j ==> !ts_lt((#[trigger] s[k]).created_time, t.created_time),
        j < s.len() ==> ts_lt(s[j].created_time, t.created_time),
    ensures
        insert_desc(s, t) == s.subrange(0, j).push(t) + s.subrange(j, s.len() as int),
    decreases j,
{
    if j == 0 {
        if s.len() == 0 {
            assert(insert_desc(s, t) =~= s.subrange(0, 0).push(t) + s.subrange(0, 0));
        } else {
            assert(insert_desc(s, t) == seq![t] + s);
            assert(seq![t] + s =~= s.subrange(0, 0).push(t) + s.subrange(0, s.len() as int));
        }
    } else {
        assert(!ts_lt(s[0].created_time, t.created_time));
        let df = s.drop_first();
        assert(forall|k: int| 0 <= k < df.len() ==> #[trigger] df[k] == s[k + 1]);
        lemma_insert_desc_at(df, t, j - 1);
        assert(insert_desc(s, t) == seq![s[0]] + insert_desc(df, t));
        assert(seq![s[0]] + (df.subrange(0, j - 1).push(t) + df.subrange(j - 1, df.len() as int))
            =~= s.subrange(0, j).push(t) + s.subrange(j, s.len() as int));
    }
}

/// The deletion candidates once the newest `hold` tags are retained:
/// everything at index `hold` and beyond.
pub open spec fn place_filtered(tags: Seq<Tag>, hold: int) -> Seq<Tag> {
    if tags.len() > hold {
        tags.subrange(hold, tags.len() as int)
    } else {
        Seq::empty()
    }
}

/// Some tag of `tags` has a name containing `mark` and points at `digest`.
pub open spec fn digest_marked(tags: Seq<Tag>, mark: Seq<char>, digest: Seq<char>) -> bool {
    exists|i: int|
        0 <= i < tags.len() && contains_seq((#[trigger] tags[i]).name@, mark) && tags[i].digest@
            == digest
}

/// The tags of `tags` whose digest is shared by no tag of `orig` marked
/// by `mark`, in order.
pub open spec fn keep_unmarked(orig: Seq<Tag>, tags: Seq<Tag>, mark: Seq<char>) -> Seq<Tag>
    decreases tags.len(),
{
    if tags.len() == 0 {
        Seq::empty()
    } else {
        let rest = keep_unmarked(orig, tags.drop_last(), mark);
        if digest_marked(orig, mark, tags.last().digest@) {
            rest
        } else {
            rest.push(tags.last())
        }
    }
}

/// One keyword rule applied to a tag listing: a tag is dropped exactly
/// when its digest is shared by some tag whose name contains the keyword.
pub open spec fn mark_filtered(tags: Seq<Tag>, mark: Seq<char>) -> Seq<Tag> {
    keep_unmarked(tags, tags, mark)
}

/// Some configured keyword marks this digest: some tag of `tags` whose
/// name contains that keyword points at it.
pub open spec fn keyword_marked(tags: Seq<Tag>, rules: Seq<Rule>, digest: Seq<char>) -> bool {
    exists|j: int|
        0 <= j < rules.len() && digest_marked(tags, (#[trigger] rules[j]).keyword@, digest)
}

/// The sub-list of `sub` whose digests some configured keyword marks in
/// `orig`, in order.
pub open spec fn select_marked(orig: Seq<Tag>, rules: Seq<Rule>, sub: Seq<Tag>) -> Seq<Tag>
    decreases sub.len(),
{
    if sub.len() == 0 {
        Seq::empty()
    } else {
        let rest = select_marked(orig, rules, sub.drop_last());
        if keyword_marked(orig, rules, sub.last().digest@) {
            rest.push(sub.last())
        } else {
            rest
        }
    }
}

/// The sub-list of `sub` whose digests no configured keyword marks in
/// `orig`, in order.
pub open spec fn select_unmarked(orig: Seq<Tag>, rules: Seq<Rule>, sub: Seq<Tag>) -> Seq<Tag>
    decreases sub.len(),
{
    if sub.len() == 0 {
        Seq::empty()
    } else {
        let rest = select_unmarked(orig, rules, sub.drop_last());
        if keyword_marked(orig, rules, sub.last().digest@) {
            rest
        } else {
            rest.push(sub.last())
        }
    }
}

/// The deletion candidates of the keyword rules: the tags whose digest
/// is shared by some tag whose name contains a configured keyword, so
/// that aliases of a marked tag leave together.
pub open spec fn keyword_candidates(tags: Seq<Tag>, rules: Seq<Rule>) -> Seq<Tag> {
    select_marked(tags, rules, tags)
}

/// The survivors of the keyword rules: the complement of
/// `keyword_candidates`, in order.
pub open spec fn keyword_survivors(tags: Seq<Tag>, rules: Seq<Rule>) -> Seq<Tag> {
    select_unmarked(tags, rules, tags)
}

/// What filtering one repository's tags by the configured policy yields:
/// the deletion candidates, or `PolicyError` when no policy, or no tag
/// rule of either kind, is configured. The keyword rules' candidates
/// come first; a count rule then sorts the keyword survivors newest
/// first and adds everything past the newest `num`.
pub open spec fn tag_rule_outcome(tags: Seq<Tag>, config: Config) -> Result<Seq<Tag>, StageError> {
    match config.filter {
        None => Err(StageError::PolicyError),
        Some(f) => match (f.tag.keep.default, f.tag.keep.rules) {
            (None, None) => Err(StageError::PolicyError),
            (None, Some(rules)) => Ok(keyword_candidates(tags, rules@)),
            (Some(hold), None) => Ok(place_filtered(sort_desc(tags), hold.num as int)),
            (Some(hold), Some(rules)) => Ok(
                keyword_candidates(tags, rules@) + place_filtered(
                    sort_desc(keyword_survivors(tags, rules@)),
                    hold.num as int,
                ),
            ),
        },
    }
}

/// Some tag of `tags` both contains `mark` in its name and shares the
/// given digest.
fn any_marked_digest(tags: &Vec<Tag>, mark: &str, digest: &str) -> (r: bool)
    ensures
        r == digest_marked(tags@, mark@, digest@),
{
    let n = tags.len();
    let mut i: usize = 0;
    while i < n
        invariant
            i <= n,
            n == tags@.len(),
            forall|k: int|
                0 <= k < i ==> !(contains_seq((#[trigger] tags@[k]).name@, mark@)
                    && tags@[k].digest@ == digest@),
        decreases n - i,
    {
        if contains_keyword(tags[i].name.as_str(), mark) && str_equal(
            tags[i].digest.as_str(),
            digest,
        ) {
            return true;
        }
        i += 1;
    }
    false
}

/// Some configured keyword marks the given digest within `tags`.
fn digest_keyword_marked(tags: &Vec<Tag>, rules: &Vec<Rule>, digest: &str) -> (r: bool)
    ensures
        r == keyword_marked(tags@, rules@, digest@),
{
    let n = rules.len();
    let mut j: usize = 0;
    while j < n
        invariant
            j <= n,
            n == rules@.len(),
            forall|k: int|
                0 <= k < j ==> !digest_marked(tags@, (#[trigger] rules@[k]).keyword@, digest@),
        decreases n - j,
    {
        if any_marked_digest(tags, rules[j].keyword.as_str(), digest) {
            return true;
        }
        j += 1;
    }
    false
}

/// Split `tags` into the keyword rules' deletion candidates and their
/// survivors, each in original order.
fn split_by_keyword(tags: &Vec<Tag>, rules: &Vec<Rule>) -> (r: (Vec<Tag>, Vec<Tag>))
    ensures
        r.0@ == select_marked(tags@, rules@, tags@),
        r.1@ == select_unmarked(tags@, rules@, tags@),
{
    let mut marked: Vec<Tag> = Vec::new();
    let mut unmarked: Vec<Tag> = Vec::new();
    let n = tags.len();
    let mut i: usize = 0;
    while i < n
        invariant
            i <= n,
            n == tags@.len(),
            marked@ == select_marked(tags@, rules@, tags@.subrange(0, i as int)),
            unmarked@ == select_unmarked(tags@, rules@, tags@.subrange(0, i as int)),
        decreases n - i,
    {
        proof {
            assert(tags@.subrange(0, i as int + 1).drop_last() =~= tags@.subrange(0, i as int));
            assert(tags@.subrange(0, i as int + 1).last() == tags@[i as int]);
        }
        if digest_keyword_marked(tags, rules, tags[i].digest.as_str()) {
            marked.push(tags[i].duplicate());
        } else {
            unmarked.push(tags[i].duplicate());
        }
        i += 1;
    }
    proof {
        assert(tags@.subrange(0, n as int) =~= tags@);
    }
    (marked, unmarked)
}

/// The tag names joined with commas.
pub open spec fn joined_names(tags: Seq<Tag>) -> Seq<char>
    decreases tags.len(),
{
    if tags.len() == 0 {
        Seq::empty()
    } else if tags.len() == 1 {
        tags[0].name@
    } else {
        joined_names(tags.drop_last()) + ","@ + tags.last().name@
    }
}

impl TagList {
    /// The names of all tags, comma-separated.
    pub fn tags(&self) -> (r: String)
        ensures
            r@ == joined_names(self.tags@),
    {
        let mut s = String::new();
        let n = self.tags.len();
        let mut i: usize = 0;
        while i < n
            invariant
                i <= n,
                n == self.tags@.len(),
                s@ == joined_names(self.tags@.subrange(0, i as int)),
            decreases n - i,
        {
            proof {
                assert(self.tags@.subrange(0, i as int + 1).drop_last() =~= self.tags@.subrange(
                    0,
                    i as int,
                ));
                assert(self.tags@.subrange(0, i as int + 1).last() == self.tags@[i as int]);
            }
            if i > 0 {
                s.append(",");
            }
            s.append(self.tags[i].name.as_str());
            i += 1;
        }
        proof {
            assert(self.tags@.subrange(0, n as int) =~= self.tags@);
        }
        s
    }

    /// Order the tags by creation time, newest first; ties keep their
    /// original order.
    pub fn sort_by_tag_createdtime_desc(self) -> (r: Self)
        ensures
            r.tags@ == sort_desc(self.tags@),
            r.registry == self.registry,
            r.image_name == self.image_name,
    {
        let mut out: Vec<Tag> = Vec::new();
        let n = self.tags.len();
        let mut i: usize = 0;
        while i < n
            invariant
                i <= n,
                n == self.tags@.len(),
                out@ == sort_desc(self.tags@.subrange(0, i as int)),
            decreases n - i,
        {
            let t = self.tags[i].duplicate();
            let mut j: usize = 0;
            while j < out.len() && !out[j].created_time.earlier_than(&t.created_time)
                invariant
                    j <= out@.len(),
                    forall|k: int|
                        0 <= k < j ==> !ts_lt((#[trigger] out@[k]).created_time, t.created_time),
                decreases out@.len() - j,
            {
                j += 1;
            }
            proof {
                lemma_insert_desc_at(out@, t, j as int);
                assert(self.tags@.subrange(0, i as int + 1).drop_last() =~= self.tags@.subrange(
                    0,
                    i as int,
                ));
                assert(self.tags@.subrange(0, i as int + 1).last() == self.tags@[i as int]);
            }
            out.insert(j, t);
            i += 1;
        }
        proof {
            assert(self.tags@.subrange(0, n as int) =~= self.tags@);
        }
        TagList { registry: self.registry, image_name: self.image_name, tags: out }
    }

    /// Drop every tag whose digest is shared by a tag whose name
    /// contains `mark`: aliases of a marked tag leave with it.
    pub fn filter_tag_by_mark(self, mark: &str) -> (r: Self)
        ensures
            r.tags@ == mark_filtered(self.tags@, mark@),
            r.registry == self.registry,
            r.image_name == self.image_name,
    {
        let mut out: Vec<Tag> = Vec::new();
        let n = self.tags.len();
        let mut i: usize = 0;
        while i < n
            invariant
                i <= n,
                n == self.tags@.len(),
                out@ == keep_unmarked(self.tags@, self.tags@.subrange(0, i as int), mark@),
            decreases n - i,
        {
            proof {
                assert(self.tags@.subrange(0, i as int + 1).drop_last() =~= self.tags@.subrange(
                    0,
                    i as int,
                ));
                assert(self.tags@.subrange(0, i as int + 1).last() == self.tags@[i as int]);
            }
            if !any_marked_digest(&self.tags, mark, self.tags[i].digest.as_str()) {
                out.push(self.tags[i].duplicate());
            }
            i += 1;
        }
        proof {
            assert(self.tags@.subrange(0, n as int) =~= self.tags@);
        }
        TagList { registry: self.registry, image_name: self.image_name, tags: out }
    }

    /// Keep only the tags at index `hold` and beyond: with the listing
    /// sorted newest first, these are the deletion candidates.
    pub fn filter_tag_by_place(self, hold: usize) -> (r: Self)
        ensures
            r.tags@ == place_filtered(self.tags@, hold as int),
            r.registry == self.registry,
            r.image_name == self.image_name,
    {
        let mut out: Vec<Tag> = Vec::new();
        let n = self.tags.len();
        if n > hold {
            let mut i: usize = hold;
            while i < n
                invariant
                    hold <= i <= n,
                    n == self.tags@.len(),
                    out@ == self.tags@.subrange(hold as int, i as int),
                decreases n - i,
            {
                proof {
                    assert(self.tags@.subrange(hold as int, i as int + 1) =~= self.tags@.subrange(
                        hold as int,
                        i as int,
                    ).push(self.tags@[i as int]));
                }
                out.push(self.tags[i].duplicate());
                i += 1;
            }
        }
        TagList { registry: self.registry, image_name: self.image_name, tags: out }
    }

    /// Apply the configured tag rules and return the deletion
    /// candidates: the tags the keyword rules mark (aliases of a marked
    /// tag leave together), then, under a count rule, the keyword
    /// survivors past the newest `num`, sorted newest first.
    pub fn filter_by_tag_rule(self, config: Arc<Config>) -> (r: Result<Self, StageError>)
        ensures
            match tag_rule_outcome(self.tags@, *config) {
                Ok(t) => r matches Ok(out) && out.tags@ == t && out.registry == self.registry
                    && out.image_name == self.image_name,
                Err(e) => r matches Err(e2) && e2 == e,
            },
    {
        match &(*config).filter {
            None => Err(StageError::PolicyError),
            Some(f) => match (&f.tag.keep.default, &f.tag.keep.rules) {
                (None, None) => Err(StageError::PolicyError),
                (None, Some(rules)) => {
                    let (marked, _unmarked) = split_by_keyword(&self.tags, rules);
                    Ok(
                        TagList {
                            registry: self.registry,
                            image_name: self.image_name,
                            tags: marked,
                        },
                    )
                },
                (Some(hold), None) => Ok(
                    self.sort_by_tag_createdtime_desc().filter_tag_by_place(hold.num),
                ),
                (Some(hold), Some(rules)) => {
                    let (mut marked, unmarked) = split_by_keyword(&self.tags, rules);
                    let survivors = TagList {
                        registry: self.registry,
                        image_name: self.image_name,
                        tags: unmarked,
                    };
                    let mut aged = survivors.sort_by_tag_createdtime_desc().filter_tag_by_place(
                        hold.num,
                    );
                    marked.append(&mut aged.tags);
                    Ok(
                        TagList {
                            registry: aged.registry,
                            image_name: aged.image_name,
                            tags: marked,
                        },
                    )
                },
            },
        }
    }
}

} // verus!
