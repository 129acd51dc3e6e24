//! Rules of the staff flow API: pagination, the filters by user and phone number, which
//! admin steps are listed and in what order, and how an admin submission is resolved.
//!
//! The handlers alternate database reads and these decisions; the decisions are here.

use vstd::prelude::*;
use vstd::string::StringExecFns;
use crate::order::{lemma_lex_asymmetric, lemma_lex_irreflexive, lemma_lex_total, lemma_lex_transitive, lex_less, lex_lt};
use crate::text::{eq_ignore_ascii_case, eq_ignore_ascii_case_spec, trim, trim_spec};

verus! {

/// `serde_json::Value`, declared so that session contexts can be carried through; nothing
/// inside a value is read.
#[verifier::external_type_specification]
#[verifier::external_body]
pub struct ExJsonValue(serde_json::Value);

/// The page requested where the query names none.
pub fn default_page() -> (p: i32)
    ensures
        p == 1,
{
    1
}

/// The page size requested where the query names none.
pub fn default_limit() -> (l: i32)
    ensures
        l == 50,
{
    50
}

/// The smallest page size.
pub open spec fn min_limit() -> i32 {
    1
}

/// The largest page size.
pub open spec fn max_limit() -> i32 {
    100
}

/// A page number brought into range: at least one.
pub open spec fn normalized_page_spec(page: i32) -> i32 {
    if page < 1 {
        1
    } else {
        page
    }
}

/// A page size brought into range: between one and a hundred.
pub open spec fn normalized_limit_spec(limit: i32) -> i32 {
    if limit < min_limit() {
        min_limit()
    } else if limit > max_limit() {
        max_limit()
    } else {
        limit
    }
}

/// A page number brought into range.
pub fn normalized_page(page: i32) -> (p: i32)
    ensures
        p == normalized_page_spec(page),
{
    if page < 1 {
        1
    } else {
        page
    }
}

/// A page size brought into range.
pub fn normalized_limit(limit: i32) -> (l: i32)
    ensures
        l == normalized_limit_spec(limit),
{
    if limit < 1 {
        1
    } else if limit > 100 {
        100
    } else {
        limit
    }
}

/// A normalized page is at least one, and normalizing it again changes nothing.
pub proof fn law_page_normalization(page: i32)
    ensures
        normalized_page_spec(page) >= 1,
        normalized_page_spec(normalized_page_spec(page)) == normalized_page_spec(page),
        page >= 1 ==> normalized_page_spec(page) == page,
{
}

/// A normalized page size lies between one and a hundred, sizes already in that range
/// are kept, and normalizing again changes nothing.
pub proof fn law_limit_normalization(limit: i32)
    ensures
        min_limit() <= normalized_limit_spec(limit) <= max_limit(),
        normalized_limit_spec(normalized_limit_spec(limit)) == normalized_limit_spec(limit),
        min_limit() <= limit <= max_limit() ==> normalized_limit_spec(limit) == limit,
{
}

/// Query of the staff session listing.
pub struct StaffSessionQuery {
    pub user_id: Option<String>,
    pub phone_number: Option<String>,
    pub session_type: Option<String>,
    pub status: Option<String>,
    pub page: i32,
    pub limit: i32,
}

/// Query of the admin step listing.
pub struct AdminStepQuery {
    pub status: Option<String>,
    pub user_id: Option<String>,
    pub phone_number: Option<String>,
    pub flow_type: Option<String>,
}

/// The view of an optional string.
pub open spec fn opt_view(o: Option<String>) -> Option<Seq<char>> {
    match o {
        Some(s) => Some(s@),
        None => None,
    }
}

/// A filter value as it is applied: without surrounding white space, and none where that
/// leaves nothing.
pub open spec fn filter_value_spec(value: Option<Seq<char>>) -> Option<Seq<char>> {
    match value {
        Some(v) => if trim_spec(v).len() == 0 {
            None
        } else {
            Some(trim_spec(v))
        },
        None => None,
    }
}

/// A filter value as it is applied.
pub fn filter_value(value: &Option<String>) -> (r: Option<String>)
    ensures
        opt_view(r) == filter_value_spec(opt_view(*value)),
{
    match value {
        Some(v) => {
            let t = trim(v.as_str());
            if t.as_str().is_empty() {
                None
            } else {
                Some(t)
            }
        },
        None => None,
    }
}

/// The views of a list of strings.
pub open spec fn views(v: Seq<String>) -> Seq<Seq<char>> {
    v.map_values(|s: String| s@)
}

/// Each element comes strictly before the next: sorted, without repeats.
pub open spec fn strictly_sorted(s: Seq<Seq<char>>) -> bool {
    forall|i: int, j: int| 0 <= i < j < s.len() ==> lex_lt(#[trigger] s[i], #[trigger] s[j])
}

/// Adds `x` to a strictly sorted list, where it is not in it yet.
fn insert_sorted_unique(out: &mut Vec<String>, x: String)
    requires
        strictly_sorted(views(old(out)@)),
    ensures
        strictly_sorted(views(final(out)@)),
        forall|y: Seq<char>|
            #![trigger views(final(out)@).contains(y)]
            views(final(out)@).contains(y) <==> (views(old(out)@).contains(y) || y == x@),
{
    let ghost before = views(out@);
    let mut p: usize = 0;
    while p < out.len() && lex_less(out[p].as_str(), x.as_str())
        invariant
            p <= out@.len(),
            views(out@) == before,
            strictly_sorted(before),
            forall|i: int| 0 <= i < p ==> lex_lt(#[trigger] before[i], x@),
        decreases out@.len() - p,
    {
        assert(before[p as int] == out@[p as int]@);
        p = p + 1;
    }
    if p < out.len() && out[p] == x {
        assert(before[p as int] == x@);
        assert forall|y: Seq<char>| #![trigger views(out@).contains(y)]
            views(out@).contains(y) <==> (before.contains(y) || y == x@) by {
            if y == x@ {
                assert(before[p as int] == y);
            }
        }
        return ;
    }
    proof {
        if p < out@.len() {
            assert(before[p as int] == out@[p as int]@);
            lemma_lex_total(before[p as int], x@);
        }
        assert forall|j: int| p <= j < before.len() implies lex_lt(x@, #[trigger] before[j]) by {
            lemma_lex_total(before[p as int], x@);
            if j > p {
                lemma_lex_transitive(x@, before[p as int], before[j]);
            }
        }
    }
    out.insert(p, x);
    let ghost after = views(out@);
    assert(after =~= before.insert(p as int, x@));
    assert forall|i: int, j: int| 0 <= i < j < after.len() implies lex_lt(
        #[trigger] after[i],
        #[trigger] after[j],
    ) by {
        if j < p {
        } else if j == p {
        } else if i < p {
            assert(after[j] == before[j - 1]);
            lemma_lex_transitive(after[i], x@, after[j]);
        } else if i == p {
            assert(after[j] == before[j - 1]);
        } else {
            assert(after[i] == before[i - 1]);
            assert(after[j] == before[j - 1]);
        }
    }
    assert forall|y: Seq<char>| #![trigger after.contains(y)]
        after.contains(y) <==> (before.contains(y) || y == x@) by {
        if after.contains(y) {
            let k = choose|k: int| 0 <= k < after.len() && after[k] == y;
            if k < p {
                assert(before[k] == y);
            } else if k > p {
                assert(before[k - 1] == y);
            }
        }
        if before.contains(y) {
            let k = choose|k: int| 0 <= k < before.len() && before[k] == y;
            if k < p {
                assert(after[k] == y);
            } else {
                assert(after[k + 1] == y);
            }
        }
        if y == x@ {
            assert(after[p as int] == y);
        }
    }
}

/// How the user IDs behind the user and phone filters are found: at once, or after the
/// users with a given phone number are looked up.
pub enum UserIdResolution {
    Resolved(Vec<String>),
    FindUsersByPhone(String),
}

/// The first step of resolving the user filters: without a phone filter the IDs are the
/// user filter alone (if any); with one, the users with that phone number are looked up.
pub fn start_user_id_resolution(user_id: &Option<String>, phone_number: &Option<String>) -> (r:
    UserIdResolution)
    ensures
        match filter_value_spec(opt_view(*phone_number)) {
            Some(phone) => r matches UserIdResolution::FindUsersByPhone(p) && p@ == phone,
            None => r matches UserIdResolution::Resolved(ids) && views(ids@) == match filter_value_spec(
                opt_view(*user_id),
            ) {
                Some(u) => seq![u],
                None => Seq::<Seq<char>>::empty(),
            },
        },
{
    let phone = filter_value(phone_number);
    match phone {
        Some(p) => UserIdResolution::FindUsersByPhone(p),
        None => {
            let mut ids: Vec<String> = Vec::new();
            match filter_value(user_id) {
                Some(u) => {
                    ids.push(u);
                },
                None => {},
            }
            assert(views(ids@) =~= match filter_value_spec(opt_view(*user_id)) {
                Some(u) => seq![u],
                None => Seq::<Seq<char>>::empty(),
            });
            UserIdResolution::Resolved(ids)
        },
    }
}

/// `x` passes the user filter `requested`, where there is one.
pub open spec fn passes_user_filter(requested: Option<Seq<char>>, x: Seq<char>) -> bool {
    match requested {
        Some(u) => x == u,
        None => true,
    }
}

/// The second step: the IDs of the users found by phone number, sorted, without repeats,
/// and kept only where they equal the user filter (if any).
pub fn finish_user_id_resolution(user_id: &Option<String>, found: &Vec<String>) -> (ids: Vec<String>)
    ensures
        strictly_sorted(views(ids@)),
        forall|x: Seq<char>|
            #![trigger views(ids@).contains(x)]
            views(ids@).contains(x) <==> (views(found@).contains(x) && passes_user_filter(
                filter_value_spec(opt_view(*user_id)),
                x,
            )),
{
    let wanted = filter_value(user_id);
    let ghost requested = filter_value_spec(opt_view(*user_id));
    let mut ids: Vec<String> = Vec::new();
    let mut k: usize = 0;
    while k < found.len()
        invariant
            k <= found@.len(),
            requested == filter_value_spec(opt_view(*user_id)),
            opt_view(wanted) == requested,
            strictly_sorted(views(ids@)),
            forall|x: Seq<char>|
                #![trigger views(ids@).contains(x)]
                views(ids@).contains(x) <==> (views(found@).take(k as int).contains(x) && passes_user_filter(requested, x)),
        decreases found@.len() - k,
    {
        let candidate = &found[k];
        let take = match &wanted {
            Some(u) => *candidate == *u,
            None => true,
        };
        let ghost pre = views(found@).take(k as int);
        let ghost post = views(found@).take(k + 1);
        let ghost before_ids = views(ids@);
        assert(post =~= pre.push(candidate@));
        assert(passes_user_filter(requested, candidate@) == take);
        if take {
            insert_sorted_unique(&mut ids, candidate.clone());
        }
        k = k + 1;
        assert forall|x: Seq<char>| #![trigger views(ids@).contains(x)]
            views(ids@).contains(x) <==> (post.contains(x) && passes_user_filter(requested, x)) by {
            assert(before_ids.contains(x) <==> (pre.contains(x) && passes_user_filter(requested, x)));
            if post.contains(x) && x != candidate@ {
                let i = choose|i: int| 0 <= i < post.len() && #[trigger] post[i] == x;
                assert(pre[i] == x);
            }
            if pre.contains(x) {
                let i = choose|i: int| 0 <= i < pre.len() && #[trigger] pre[i] == x;
                assert(post[i] == x);
            }
            if x == candidate@ {
                assert(post[k - 1] == x);
            }
        }
    }
    assert(views(found@).take(found@.len() as int) =~= views(found@));
    ids
}

/// Two strictly sorted lists that hold the same elements are the same list: the IDs that
/// the user filters resolve to are fixed by the elements that the rules keep.
pub proof fn law_sorted_distinct_lists_are_unique(a: Seq<Seq<char>>, b: Seq<Seq<char>>)
    requires
        strictly_sorted(a),
        strictly_sorted(b),
        forall|x: Seq<char>| a.contains(x) <==> b.contains(x),
    ensures
        a == b,
    decreases a.len(),
{
    if a.len() == 0 {
        if b.len() > 0 {
            assert(b.contains(b[0]));
        }
        assert(a =~= b);
    } else if b.len() == 0 {
        assert(a.contains(a[0]));
    } else {
        assert(a.contains(a[0]));
        assert(b.contains(b[0]));
        let i = choose|i: int| 0 <= i < b.len() && b[i] == a[0];
        let j = choose|j: int| 0 <= j < a.len() && a[j] == b[0];
        if i > 0 {
            assert(lex_lt(b[0], b[i]));
            if j > 0 {
                assert(lex_lt(a[0], a[j]));
                lemma_lex_asymmetric(a[0], b[0]);
            } else {
                lemma_lex_irreflexive(a[0]);
            }
        }
        assert(a[0] == b[0]);
        let a1 = a.drop_first();
        let b1 = b.drop_first();
        assert forall|x: Seq<char>| a1.contains(x) <==> b1.contains(x) by {
            if a1.contains(x) {
                let k = choose|k: int| 0 <= k < a1.len() && a1[k] == x;
                assert(a[k + 1] == x);
                assert(lex_lt(a[0], a[k + 1]));
                assert(b.contains(x));
                let m = choose|m: int| 0 <= m < b.len() && b[m] == x;
                if m == 0 {
                    lemma_lex_irreflexive(x);
                }
                assert(b1[m - 1] == x);
            }
            if b1.contains(x) {
                let k = choose|k: int| 0 <= k < b1.len() && b1[k] == x;
                assert(b[k + 1] == x);
                assert(lex_lt(b[0], b[k + 1]));
                assert(a.contains(x));
                let m = choose|m: int| 0 <= m < a.len() && a[m] == x;
                if m == 0 {
                    lemma_lex_irreflexive(x);
                }
                assert(a1[m - 1] == x);
            }
        }
        law_sorted_distinct_lists_are_unique(a1, b1);
        assert(a =~= seq![a[0]] + a1);
        assert(b =~= seq![b[0]] + b1);
    }
}

/// Filter of a session listing, as the session store applies it.
pub struct SessionFilter {
    pub user_id: Option<String>,
    pub user_ids: Option<Vec<String>>,
    pub session_type: Option<String>,
    pub status: Option<String>,
    pub page: i32,
    pub limit: i32,
}

/// What a session listing does: answer with an empty page at once, or fetch a page.
pub enum SessionListing {
    Empty { page: i32, limit: i32 },
    Fetch(SessionFilter),
}

/// The session listing for a query, given the user IDs that its filters resolved to: a
/// phone filter that matched no user gives an empty page; otherwise the sessions are
/// fetched by the user filter, the resolved IDs (where a phone filter was given), the
/// type and status filters, and the page brought into range.
pub fn plan_staff_session_listing(query: StaffSessionQuery, user_ids: Vec<String>) -> (r:
    SessionListing)
    ensures
        (query.phone_number is Some && user_ids@.len() == 0) ==> r == (SessionListing::Empty {
            page: normalized_page_spec(query.page),
            limit: normalized_limit_spec(query.limit),
        }),
        !(query.phone_number is Some && user_ids@.len() == 0) ==> (r matches SessionListing::Fetch(
            f,
        ) && f.user_id == query.user_id && f.session_type == query.session_type && f.status
            == query.status && f.page == normalized_page_spec(query.page) && f.limit
            == normalized_limit_spec(query.limit) && (query.phone_number is Some ==> f.user_ids
            == Some(user_ids)) && (query.phone_number is None ==> f.user_ids is None)),
{
    let by_phone = query.phone_number.is_some();
    if by_phone && user_ids.len() == 0 {
        return SessionListing::Empty {
            page: normalized_page(query.page),
            limit: normalized_limit(query.limit),
        };
    }
    SessionListing::Fetch(
        SessionFilter {
            user_id: query.user_id,
            user_ids: if by_phone {
                Some(user_ids)
            } else {
                None
            },
            session_type: query.session_type,
            status: query.status,
            page: normalized_page(query.page),
            limit: normalized_limit(query.limit),
        },
    )
}

/// The number of sessions scanned for admin steps.
pub open spec fn admin_scan_limit() -> i32 {
    500
}

/// The sessions scanned for admin steps, given the user IDs that the filters resolved to:
/// none where a phone filter matched no user; otherwise the first page of up to 500
/// sessions of the user filter and (where a phone filter was given) the resolved IDs.
pub fn plan_admin_step_scan(query: AdminStepQuery, user_ids: Vec<String>) -> (r: Option<
    SessionFilter,
>)
    ensures
        (query.phone_number is Some && user_ids@.len() == 0) ==> r is None,
        !(query.phone_number is Some && user_ids@.len() == 0) ==> (r matches Some(f) && f.user_id
            == query.user_id && f.session_type is None && f.status is None && f.page == 1
            && f.limit == admin_scan_limit() && (query.phone_number is Some ==> f.user_ids == Some(
            user_ids,
        )) && (query.phone_number is None ==> f.user_ids is None)),
{
    let by_phone = query.phone_number.is_some();
    if by_phone && user_ids.len() == 0 {
        return None;
    }
    Some(
        SessionFilter {
            user_id: query.user_id,
            user_ids: if by_phone {
                Some(user_ids)
            } else {
                None
            },
            session_type: None,
            status: None,
            page: 1,
            limit: 500,
        },
    )
}

/// A flow is scanned when no flow-type filter is given or its type equals the filter,
/// ASCII case aside.
pub open spec fn flow_type_selected_spec(flow_type: Seq<char>, filter: Option<Seq<char>>) -> bool {
    match filter {
        Some(f) => eq_ignore_ascii_case_spec(flow_type, f),
        None => true,
    }
}

/// Whether a flow of type `flow_type` is scanned under the flow-type filter.
pub fn flow_type_selected(flow_type: &str, filter: &Option<String>) -> (b: bool)
    ensures
        b == flow_type_selected_spec(flow_type@, opt_view(*filter)),
{
    match filter {
        Some(f) => eq_ignore_ascii_case(flow_type, f.as_str()),
        None => true,
    }
}

/// A step is listed when its actor is `ADMIN` and, where a status filter is given, its
/// status equals it; both compared with ASCII case aside.
pub open spec fn admin_step_listed_spec(
    actor: Seq<char>,
    status: Seq<char>,
    status_filter: Option<Seq<char>>,
) -> bool {
    &&& eq_ignore_ascii_case_spec(actor, "ADMIN"@)
    &&& match status_filter {
        Some(f) => eq_ignore_ascii_case_spec(status, f),
        None => true,
    }
}

/// Whether a step is listed among the admin steps.
pub fn admin_step_listed(actor: &str, status: &str, status_filter: &Option<String>) -> (b: bool)
    ensures
        b == admin_step_listed_spec(actor@, status@, opt_view(*status_filter)),
{
    if !eq_ignore_ascii_case(actor, "ADMIN") {
        return false;
    }
    match status_filter {
        Some(f) => eq_ignore_ascii_case(status, f.as_str()),
        None => true,
    }
}

/// A flow step, as the admin listing reads it; `created_at` is in UNIX microseconds.
pub struct AdminStep {
    pub id: String,
    pub flow_id: String,
    pub step_type: String,
    pub actor: String,
    pub status: String,
    pub created_at: i64,
}

/// Step `a` comes no later than step `b`: by creation time, then by ID.
pub open spec fn step_le(a: AdminStep, b: AdminStep) -> bool {
    a.created_at < b.created_at || (a.created_at == b.created_at && !lex_lt(b.id@, a.id@))
}

/// Steps in order of creation time, then ID.
pub open spec fn steps_in_order(s: Seq<AdminStep>) -> bool {
    forall|i: int, j: int| 0 <= i < j < s.len() ==> step_le(#[trigger] s[i], #[trigger] s[j])
}

proof fn lemma_step_le_total(a: AdminStep, b: AdminStep)
    ensures
        step_le(a, b) || step_le(b, a),
{
    lemma_lex_total(a.id@, b.id@);
    lemma_lex_asymmetric(a.id@, b.id@);
}

proof fn lemma_step_le_transitive(a: AdminStep, b: AdminStep, c: AdminStep)
    requires
        step_le(a, b),
        step_le(b, c),
    ensures
        step_le(a, c),
{
    if a.created_at == b.created_at && b.created_at == c.created_at {
        lemma_lex_total(a.id@, b.id@);
        lemma_lex_total(b.id@, c.id@);
        if lex_lt(c.id@, a.id@) {
            if a.id@ == b.id@ {
            } else if b.id@ == c.id@ {
            } else {
                lemma_lex_transitive(c.id@, a.id@, b.id@);
            }
        }
    }
}

fn step_le_exec(a: &AdminStep, b: &AdminStep) -> (r: bool)
    ensures
        r == step_le(*a, *b),
{
    a.created_at < b.created_at || (a.created_at == b.created_at && !lex_less(
        b.id.as_str(),
        a.id.as_str(),
    ))
}

/// Steps `a` and `b` have the same creation time and ID.
pub open spec fn same_position(a: AdminStep, b: AdminStep) -> bool {
    step_le(a, b) && step_le(b, a)
}

/// `output` is `input` rearranged: its `k`-th step is step `perm[k]` of `input`, each step
/// of `input` is used once, and steps with the same creation time and ID keep the order
/// they had in `input`.
pub open spec fn stable_arrangement(input: Seq<AdminStep>, output: Seq<AdminStep>, perm: Seq<int>) -> bool {
    &&& output.len() == input.len()
    &&& perm.len() == input.len()
    &&& forall|k: int|
        0 <= k < perm.len() ==> 0 <= #[trigger] perm[k] < input.len() && output[k] == input[perm[k]]
    &&& forall|k: int, l: int| 0 <= k < l < perm.len() ==> #[trigger] perm[k] != #[trigger] perm[l]
    &&& forall|k: int, l: int|
        0 <= k < l < output.len() && same_position(#[trigger] output[k], #[trigger] output[l])
            ==> perm[k] < perm[l]
}

/// The admin steps in order of creation time, then ID; steps with the same time and ID
/// keep their order (a stable sort).
pub fn sort_admin_steps(steps: Vec<AdminStep>) -> (r: Vec<AdminStep>)
    ensures
        steps_in_order(r@),
        r@.to_multiset() == steps@.to_multiset(),
        exists|perm: Seq<int>| stable_arrangement(steps@, r@, perm),
{
    broadcast use vstd::multiset::group_multiset_axioms;

    let ghost input = steps@;
    let mut rest = steps;
    let mut out: Vec<AdminStep> = Vec::new();
    let ghost mut perm: Seq<int> = Seq::empty();
    proof {
        vstd::seq_lib::to_multiset_len(out@);
        assert(out@.to_multiset() =~= vstd::multiset::Multiset::<AdminStep>::empty());
        assert(rest@.to_multiset().add(out@.to_multiset()) =~= input.to_multiset());
        assert(input.take(input.len() as int) =~= input);
    }
    while rest.len() > 0
        invariant
            steps_in_order(out@),
            rest@.to_multiset().add(out@.to_multiset()) == input.to_multiset(),
            rest@ == input.take(rest@.len() as int),
            rest@.len() + out@.len() == input.len(),
            perm.len() == out@.len(),
            forall|k: int|
                0 <= k < perm.len() ==> rest@.len() <= #[trigger] perm[k] < input.len() && out@[k]
                    == input[perm[k]],
            forall|k: int, l: int| 0 <= k < l < perm.len() ==> #[trigger] perm[k] != #[trigger] perm[l],
            forall|k: int, l: int|
                0 <= k < l < out@.len() && same_position(#[trigger] out@[k], #[trigger] out@[l])
                    ==> perm[k] < perm[l],
        decreases rest@.len(),
    {
        let ghost rest_before = rest@;
        let x = rest.pop().unwrap();
        let ghost i = rest@.len() as int;
        assert(rest_before =~= rest@.push(x));
        assert(x == input[i]);
        assert(rest@ =~= input.take(i));
        let ghost before = out@;
        let ghost perm_before = perm;
        let mut p: usize = 0;
        while p < out.len() && !step_le_exec(&x, &out[p])
            invariant
                p <= out@.len(),
                out@ == before,
                steps_in_order(before),
                forall|j: int| 0 <= j < p ==> !step_le(x, #[trigger] before[j]),
            decreases out@.len() - p,
        {
            p = p + 1;
        }
        proof {
            assert forall|j: int| 0 <= j < p implies step_le(#[trigger] before[j], x) by {
                lemma_step_le_total(x, before[j]);
            }
            assert forall|j: int| p <= j < before.len() implies step_le(x, #[trigger] before[j]) by {
                if j > p {
                    lemma_step_le_transitive(x, before[p as int], before[j]);
                }
            }
        }
        out.insert(p, x);
        proof {
            perm = perm_before.insert(p as int, i);
            let after = out@;
            assert(after == before.insert(p as int, x));
            assert forall|a: int, b: int| 0 <= a < b < after.len() implies step_le(
                #[trigger] after[a],
                #[trigger] after[b],
            ) by {
                if b < p {
                } else if b == p {
                } else if a < p {
                    assert(after[b] == before[b - 1]);
                    lemma_step_le_transitive(after[a], x, after[b]);
                } else if a == p {
                    assert(after[b] == before[b - 1]);
                } else {
                    assert(after[a] == before[a - 1]);
                    assert(after[b] == before[b - 1]);
                }
            }
            assert forall|k: int| 0 <= k < perm.len() implies rest@.len() <= #[trigger] perm[k]
                < input.len() && after[k] == input[perm[k]] by {
                if k < p {
                    assert(perm[k] == perm_before[k]);
                } else if k > p {
                    assert(perm[k] == perm_before[k - 1]);
                    assert(after[k] == before[k - 1]);
                }
            }
            assert forall|k: int, l: int| 0 <= k < l < perm.len() implies #[trigger] perm[k]
                != #[trigger] perm[l] by {
                if k != p && l != p {
                    let k0 = if k < p { k } else { k - 1 };
                    let l0 = if l < p { l } else { l - 1 };
                    assert(perm[k] == perm_before[k0]);
                    assert(perm[l] == perm_before[l0]);
                } else if k == p {
                    assert(perm[l] == perm_before[l - 1]);
                } else {
                    let k0 = if k < p { k } else { k - 1 };
                    assert(perm[k] == perm_before[k0]);
                }
            }
            assert forall|k: int, l: int|
                0 <= k < l < after.len() && same_position(#[trigger] after[k], #[trigger] after[l])
                implies perm[k] < perm[l] by {
                if k == p {
                    assert(perm[l] == perm_before[l - 1]);
                } else if l == p {
                    assert(!step_le(x, before[k]));
                } else {
                    let k0 = if k < p { k } else { k - 1 };
                    let l0 = if l < p { l } else { l - 1 };
                    assert(perm[k] == perm_before[k0]);
                    assert(perm[l] == perm_before[l0]);
                    assert(after[k] == before[k0]);
                    assert(after[l] == before[l0]);
                }
            }
            vstd::seq_lib::to_multiset_build(rest@, x);
            vstd::seq_lib::to_multiset_insert(before, p as int, x);
            assert(rest_before.to_multiset() == rest@.to_multiset().insert(x));
            assert(after.to_multiset() == before.to_multiset().insert(x));
            assert(rest@.to_multiset().add(after.to_multiset()) =~= rest_before.to_multiset().add(
                before.to_multiset(),
            ));
        }
    }
    proof {
        vstd::seq_lib::to_multiset_len(rest@);
        assert(rest@.to_multiset() =~= vstd::multiset::Multiset::<AdminStep>::empty());
        assert(stable_arrangement(input, out@, perm));
    }
    assert(out@.to_multiset() =~= rest@.to_multiset().add(out@.to_multiset()));
    out
}

/// A step found while scanning the sessions' flows, with the type of its flow.
pub struct AdminStepCandidate {
    pub flow_type: String,
    pub step: AdminStep,
}

/// A scanned step is listed: its flow passes the flow-type filter and the step passes the
/// actor and status filters.
pub open spec fn candidate_kept(c: AdminStepCandidate, query: &AdminStepQuery) -> bool {
    &&& flow_type_selected_spec(c.flow_type@, opt_view(query.flow_type))
    &&& admin_step_listed_spec(c.step.actor@, c.step.status@, opt_view(query.status))
}

/// The listed steps among the scanned ones, in scanning order.
pub open spec fn kept_steps(cands: Seq<AdminStepCandidate>, query: &AdminStepQuery) -> Seq<AdminStep>
    decreases cands.len(),
{
    if cands.len() == 0 {
        Seq::empty()
    } else {
        let earlier = kept_steps(cands.drop_last(), query);
        if candidate_kept(cands.last(), query) {
            earlier.push(cands.last().step)
        } else {
            earlier
        }
    }
}

/// Every step that the admin step listing keeps is an admin step (its actor is `ADMIN`,
/// ASCII case aside), whatever the filters of the query.
pub proof fn law_listed_steps_are_admin_steps(cands: Seq<AdminStepCandidate>, query: &AdminStepQuery)
    ensures
        forall|k: int|
            0 <= k < kept_steps(cands, query).len() ==> eq_ignore_ascii_case_spec(
                (#[trigger] kept_steps(cands, query)[k]).actor@,
                "ADMIN"@,
            ),
    decreases cands.len(),
{
    if cands.len() > 0 {
        let earlier = kept_steps(cands.drop_last(), query);
        law_listed_steps_are_admin_steps(cands.drop_last(), query);
        if candidate_kept(cands.last(), query) {
            let all = earlier.push(cands.last().step);
            assert(all == kept_steps(cands, query));
            assert forall|k: int| 0 <= k < all.len() implies eq_ignore_ascii_case_spec(
                (#[trigger] all[k]).actor@,
                "ADMIN"@,
            ) by {
                if k < earlier.len() {
                    assert(all[k] == earlier[k]);
                }
            }
        }
    }
}

/// Candidate `c` passes the query's filters: its flow type matches the flow-type filter
/// and its step's status the status filter, ASCII case aside, where a filter is given.
pub open spec fn passes_filters(c: AdminStepCandidate, query: &AdminStepQuery) -> bool {
    &&& query.flow_type matches Some(f) ==> eq_ignore_ascii_case_spec(c.flow_type@, f@)
    &&& query.status matches Some(st) ==> eq_ignore_ascii_case_spec(c.step.status@, st@)
}

/// `x` is the step of one of the scanned candidates that passes the query's filters.
pub open spec fn step_of_passing_candidate(
    cands: Seq<AdminStepCandidate>,
    query: &AdminStepQuery,
    x: AdminStep,
) -> bool {
    exists|j: int| 0 <= j < cands.len() && cands[j].step == x && #[trigger] passes_filters(cands[j], query)
}

/// Each step that the admin step listing keeps is the step of a scanned candidate that
/// passes the query's filters.
pub proof fn law_listed_steps_pass_the_filters(cands: Seq<AdminStepCandidate>, query: &AdminStepQuery)
    ensures
        forall|k: int|
            0 <= k < kept_steps(cands, query).len() ==> step_of_passing_candidate(
                cands,
                query,
                #[trigger] kept_steps(cands, query)[k],
            ),
    decreases cands.len(),
{
    if cands.len() > 0 {
        let init = cands.drop_last();
        let earlier = kept_steps(init, query);
        law_listed_steps_pass_the_filters(init, query);
        let last = cands.last();
        let all = kept_steps(cands, query);
        assert forall|k: int| 0 <= k < all.len() implies step_of_passing_candidate(
            cands,
            query,
            #[trigger] all[k],
        ) by {
            if k < earlier.len() {
                assert(all[k] == earlier[k]);
                assert(step_of_passing_candidate(init, query, earlier[k]));
                let j = choose|j: int|
                    0 <= j < init.len() && init[j].step == earlier[k] && #[trigger] passes_filters(
                        init[j],
                        query,
                    );
                assert(cands[j] == init[j]);
                assert(passes_filters(cands[j], query));
            } else {
                assert(candidate_kept(last, query));
                assert(all[k] == last.step);
                assert(cands[cands.len() - 1] == last);
                assert(passes_filters(cands[cands.len() - 1], query));
            }
        }
    }
}

/// The admin step listing keeps the step of every scanned candidate that is an admin
/// step (actor `ADMIN`, ASCII case aside) and passes the query's filters.
pub proof fn law_passing_admin_steps_are_listed(cands: Seq<AdminStepCandidate>, query: &AdminStepQuery)
    ensures
        forall|j: int|
            0 <= j < cands.len() && eq_ignore_ascii_case_spec((#[trigger] cands[j]).step.actor@, "ADMIN"@)
                && passes_filters(cands[j], query) ==> kept_steps(cands, query).contains(
                cands[j].step,
            ),
    decreases cands.len(),
{
    if cands.len() > 0 {
        let init = cands.drop_last();
        let earlier = kept_steps(init, query);
        law_passing_admin_steps_are_listed(init, query);
        let last = cands.last();
        let all = kept_steps(cands, query);
        assert forall|j: int|
            0 <= j < cands.len() && eq_ignore_ascii_case_spec(
                (#[trigger] cands[j]).step.actor@,
                "ADMIN"@,
            ) && passes_filters(cands[j], query) implies all.contains(cands[j].step) by {
            if j < init.len() {
                assert(cands[j] == init[j]);
                assert(earlier.contains(init[j].step));
                let k = choose|k: int| 0 <= k < earlier.len() && earlier[k] == init[j].step;
                if candidate_kept(last, query) {
                    assert(all[k] == earlier[k]);
                }
            } else {
                assert(cands[j] == last);
                assert(candidate_kept(last, query));
                assert(all[earlier.len() as int] == last.step);
            }
        }
    }
}

/// The admin step listing, from the steps found while scanning (in the order sessions,
/// flows and steps were read): the listed ones, ordered by creation time and ID, steps with
/// the same time and ID in scanning order.
pub fn select_admin_steps(query: &AdminStepQuery, candidates: Vec<AdminStepCandidate>) -> (r: Vec<
    AdminStep,
>)
    ensures
        steps_in_order(r@),
        exists|perm: Seq<int>| stable_arrangement(kept_steps(candidates@, query), r@, perm),
        forall|k: int|
            0 <= k < r@.len() ==> eq_ignore_ascii_case_spec((#[trigger] r@[k]).actor@, "ADMIN"@),
{
    let ghost cands = candidates@;
    let mut rest = candidates;
    let mut kept: Vec<AdminStep> = Vec::new();
    let ghost mut k: int = 0;
    proof {
        assert(cands.skip(0) =~= cands);
        assert(cands.take(0) =~= Seq::<AdminStepCandidate>::empty());
    }
    while rest.len() > 0
        invariant
            0 <= k <= cands.len(),
            rest@ == cands.skip(k),
            kept@ == kept_steps(cands.take(k), query),
        decreases rest@.len(),
    {
        let c = rest.remove(0);
        proof {
            assert(c == cands[k]);
            assert(cands.take(k + 1).drop_last() =~= cands.take(k));
            assert(cands.take(k + 1).last() == c);
            assert(rest@ =~= cands.skip(k + 1));
        }
        let keep = flow_type_selected(c.flow_type.as_str(), &query.flow_type) && admin_step_listed(
            c.step.actor.as_str(),
            c.step.status.as_str(),
            &query.status,
        );
        if keep {
            kept.push(c.step);
        }
        proof {
            k = k + 1;
        }
    }
    proof {
        assert(cands.take(k) =~= cands);
        law_listed_steps_are_admin_steps(cands, query);
    }
    let r = sort_admin_steps(kept);
    proof {
        let kept_all = kept_steps(cands, query);
        let perm = choose|perm: Seq<int>| stable_arrangement(kept_all, r@, perm);
        assert forall|k: int| 0 <= k < r@.len() implies eq_ignore_ascii_case_spec(
            (#[trigger] r@[k]).actor@,
            "ADMIN"@,
        ) by {
            assert(0 <= perm[k] < kept_all.len() && r@[k] == kept_all[perm[k]]);
        }
    }
    r
}

/// Why a staff flow request was refused.
#[derive(Debug, Clone, Copy, PartialEq, Eq, Structural)]
pub enum StaffFlowError {
    SessionNotFound,
    FlowNotFound,
    StepNotFound,
    StepNotAdmin,
    StepNotWaiting,
    InvalidAdminStepOutcome,
}

/// The machine-readable code of a refusal.
pub open spec fn staff_error_code(e: StaffFlowError) -> Seq<char> {
    match e {
        StaffFlowError::SessionNotFound => "SESSION_NOT_FOUND"@,
        StaffFlowError::FlowNotFound => "FLOW_NOT_FOUND"@,
        StaffFlowError::StepNotFound => "STEP_NOT_FOUND"@,
        StaffFlowError::StepNotAdmin => "STEP_NOT_ADMIN"@,
        StaffFlowError::StepNotWaiting => "STEP_NOT_WAITING"@,
        StaffFlowError::InvalidAdminStepOutcome => "INVALID_ADMIN_STEP_OUTCOME"@,
    }
}

/// The human-readable text of a refusal.
pub open spec fn staff_error_message(e: StaffFlowError) -> Seq<char> {
    match e {
        StaffFlowError::SessionNotFound => "Session not found"@,
        StaffFlowError::FlowNotFound => "Flow not found"@,
        StaffFlowError::StepNotFound => "Step not found"@,
        StaffFlowError::StepNotAdmin => "Step is not an admin-managed step"@,
        StaffFlowError::StepNotWaiting => "Admin step is not waiting for input"@,
        StaffFlowError::InvalidAdminStepOutcome => "Admin submission must resolve to a terminal verification outcome"@,
    }
}

/// The HTTP status of a refusal: 404 for what is missing, 400 for a step that is not an
/// admin step, 409 for a conflict with the step's state.
pub open spec fn staff_error_status(e: StaffFlowError) -> u16 {
    match e {
        StaffFlowError::SessionNotFound => 404,
        StaffFlowError::FlowNotFound => 404,
        StaffFlowError::StepNotFound => 404,
        StaffFlowError::StepNotAdmin => 400,
        StaffFlowError::StepNotWaiting => 409,
        StaffFlowError::InvalidAdminStepOutcome => 409,
    }
}

impl StaffFlowError {
    /// The machine-readable code.
    pub fn code(&self) -> (c: String)
        ensures
            c@ == staff_error_code(*self),
    {
        match self {
            StaffFlowError::SessionNotFound => String::from_str("SESSION_NOT_FOUND"),
            StaffFlowError::FlowNotFound => String::from_str("FLOW_NOT_FOUND"),
            StaffFlowError::StepNotFound => String::from_str("STEP_NOT_FOUND"),
            StaffFlowError::StepNotAdmin => String::from_str("STEP_NOT_ADMIN"),
            StaffFlowError::StepNotWaiting => String::from_str("STEP_NOT_WAITING"),
            StaffFlowError::InvalidAdminStepOutcome => String::from_str(
                "INVALID_ADMIN_STEP_OUTCOME",
            ),
        }
    }

    /// The human-readable text.
    pub fn message(&self) -> (m: String)
        ensures
            m@ == staff_error_message(*self),
    {
        match self {
            StaffFlowError::SessionNotFound => String::from_str("Session not found"),
            StaffFlowError::FlowNotFound => String::from_str("Flow not found"),
            StaffFlowError::StepNotFound => String::from_str("Step not found"),
            StaffFlowError::StepNotAdmin => String::from_str("Step is not an admin-managed step"),
            StaffFlowError::StepNotWaiting => String::from_str(
                "Admin step is not waiting for input",
            ),
            StaffFlowError::InvalidAdminStepOutcome => String::from_str(
                "Admin submission must resolve to a terminal verification outcome",
            ),
        }
    }

    /// The HTTP status.
    pub fn status(&self) -> (s: u16)
        ensures
            s == staff_error_status(*self),
    {
        match self {
            StaffFlowError::SessionNotFound => 404,
            StaffFlowError::FlowNotFound => 404,
            StaffFlowError::StepNotFound => 404,
            StaffFlowError::StepNotAdmin => 400,
            StaffFlowError::StepNotWaiting => 409,
            StaffFlowError::InvalidAdminStepOutcome => 409,
        }
    }
}

/// A step may be handled through the admin endpoints: it exists and its actor is `ADMIN`
/// (ASCII case aside).
pub fn check_admin_step(step: &Option<AdminStep>) -> (r: Result<(), StaffFlowError>)
    ensures
        match step {
            None => r == Err::<(), StaffFlowError>(StaffFlowError::StepNotFound),
            Some(s) => if eq_ignore_ascii_case_spec(s.actor@, "ADMIN"@) {
                r == Ok::<(), StaffFlowError>(())
            } else {
                r == Err::<(), StaffFlowError>(StaffFlowError::StepNotAdmin)
            },
        },
{
    match step {
        None => Err(StaffFlowError::StepNotFound),
        Some(s) => if eq_ignore_ascii_case(s.actor.as_str(), "ADMIN") {
            Ok(())
        } else {
            Err(StaffFlowError::StepNotAdmin)
        },
    }
}

/// An admin step accepts a submission only while its status is `WAITING` (ASCII case
/// aside).
pub fn check_step_waiting(status: &str) -> (r: Result<(), StaffFlowError>)
    ensures
        eq_ignore_ascii_case_spec(status@, "WAITING"@) ==> r == Ok::<(), StaffFlowError>(()),
        !eq_ignore_ascii_case_spec(status@, "WAITING"@) ==> r == Err::<(), StaffFlowError>(
            StaffFlowError::StepNotWaiting,
        ),
{
    if eq_ignore_ascii_case(status, "WAITING") {
        Ok(())
    } else {
        Err(StaffFlowError::StepNotWaiting)
    }
}

/// What verifying an admin submission concluded.
pub enum VerifyOutcome {
    Done,
    Branched(String),
    Failed,
    Waiting,
    Retry,
}

/// How a submitted admin step ends: completed (on a branch, where one was taken), or
/// failed.
#[derive(PartialEq, Eq)]
pub enum StepResolution {
    Completed { branch: Option<String> },
    Failed,
}

/// How a submitted admin step ends, given the verification outcome: done completes it,
/// a branch completes it on that branch, a failure fails it; an outcome that is still
/// waiting or asks for a retry is refused, as an admin submission must settle the step.
pub fn resolve_admin_outcome(outcome: VerifyOutcome) -> (r: Result<StepResolution, StaffFlowError>)
    ensures
        match outcome {
            VerifyOutcome::Done => r matches Ok(StepResolution::Completed { branch: None }),
            VerifyOutcome::Branched(b) => r matches Ok(StepResolution::Completed { branch: Some(x) })
                && x == b,
            VerifyOutcome::Failed => r matches Ok(StepResolution::Failed),
            _ => r == Err::<StepResolution, StaffFlowError>(
                StaffFlowError::InvalidAdminStepOutcome,
            ),
        },
{
    match outcome {
        VerifyOutcome::Done => Ok(StepResolution::Completed { branch: None }),
        VerifyOutcome::Branched(b) => Ok(StepResolution::Completed { branch: Some(b) }),
        VerifyOutcome::Failed => Ok(StepResolution::Failed),
        VerifyOutcome::Waiting => Err(StaffFlowError::InvalidAdminStepOutcome),
        VerifyOutcome::Retry => Err(StaffFlowError::InvalidAdminStepOutcome),
    }
}

/// The status written to a resolved step.
pub open spec fn resolution_status_spec(r: StepResolution) -> Seq<char> {
    match r {
        StepResolution::Completed { .. } => "COMPLETED"@,
        StepResolution::Failed => "FAILED"@,
    }
}

/// The status written to a resolved step.
pub fn resolution_status(r: &StepResolution) -> (s: String)
    ensures
        s@ == resolution_status_spec(*r),
{
    match r {
        StepResolution::Completed { .. } => String::from_str("COMPLETED"),
        StepResolution::Failed => String::from_str("FAILED"),
    }
}

/// How the flow goes on after a step is resolved.
#[derive(PartialEq, Eq)]
pub enum FlowAdvance {
    /// Create the chain of steps that starts with this step.
    StartStep(String),
    /// Finish the flow with the terminal status that this transition target names.
    FinishAtTerminal(String),
    /// Finish the flow with this status.
    Finish(String),
}

/// How the flow goes on, given the transition target of the resolved step (if any),
/// whether that target is a step of the flow, and whether the step failed: a step target
/// starts that step; another target finishes the flow with the terminal status it names;
/// no target finishes the flow as failed or completed, as the step ended.
pub fn next_flow_action(next: Option<String>, next_is_step: bool, failed: bool) -> (a: FlowAdvance)
    ensures
        match next {
            Some(n) => if next_is_step {
                a matches FlowAdvance::StartStep(s) && s == n
            } else {
                a matches FlowAdvance::FinishAtTerminal(s) && s == n
            },
            None => a matches FlowAdvance::Finish(status) && status@ == (if failed {
                "FAILED"@
            } else {
                "COMPLETED"@
            }),
        },
{
    match next {
        Some(n) => if next_is_step {
            FlowAdvance::StartStep(n)
        } else {
            FlowAdvance::FinishAtTerminal(n)
        },
        None => if failed {
            FlowAdvance::Finish(String::from_str("FAILED"))
        } else {
            FlowAdvance::Finish(String::from_str("COMPLETED"))
        },
    }
}

/// Whether the session's status is refreshed after a step is resolved: always after a
/// completed step, and after a failed one only where it had a transition target (a failed
/// step without one just finishes its flow as failed).
pub fn session_refresh_needed(next: &Option<String>, failed: bool) -> (b: bool)
    ensures
        b == (!failed || next is Some),
{
    !failed || next.is_some()
}

/// Where an admin submission stands.
pub enum SubmissionState {
    /// The step is being read.
    LoadingStep,
    /// The step's flow is being read.
    LoadingFlow,
    /// The flow's session is being read.
    LoadingSession,
    /// The submitted input is being verified.
    Verifying,
    /// The step is resolved (failed or not) and its transition is being looked up.
    Transitioning { failed: bool },
    /// The submission is done.
    Finished,
    /// The submission was refused.
    Refused(StaffFlowError),
}

/// What came of the last action of an admin submission.
pub enum SubmissionEvent {
    StepLoaded(Option<AdminStep>),
    FlowLoaded { found: bool },
    SessionLoaded { found: bool },
    Verified(VerifyOutcome),
    TransitionResolved { next: Option<String>, next_is_step: bool },
}

/// What an admin submission does next.
pub enum SubmissionAction {
    /// Read the step's flow.
    LoadFlow,
    /// Read the flow's session.
    LoadSession,
    /// Validate and verify the submitted input.
    VerifyInput,
    /// Write the step as failed, with the input and the error, and look up the failure
    /// transition.
    RecordFailure,
    /// Write the step as completed, with the input and the output, store the output in the
    /// flow's context, and look up the transition on `branch`.
    RecordCompletion { branch: Option<String> },
    /// Carry the flow on, and refresh the session's status where `refresh_session`.
    Advance { advance: FlowAdvance, refresh_session: bool },
    /// Answer with this refusal.
    Refuse(StaffFlowError),
    /// The event does not belong to the stage; nothing changes.
    Ignore,
}

/// `advance` is how the flow goes on after a step is resolved, as `next_flow_action` gives
/// it.
pub open spec fn flow_advance_matches(
    advance: FlowAdvance,
    next: Option<String>,
    next_is_step: bool,
    failed: bool,
) -> bool {
    match next {
        Some(n) => if next_is_step {
            advance matches FlowAdvance::StartStep(s) && s == n
        } else {
            advance matches FlowAdvance::FinishAtTerminal(s) && s == n
        },
        None => advance matches FlowAdvance::Finish(status) && status@ == (if failed {
            "FAILED"@
        } else {
            "COMPLETED"@
        }),
    }
}

/// One step of an admin submission: the stage it moves to and the action it takes, from
/// the stage it stands in and what came of the last action. The step is read first: a
/// missing step, then a step that is not an admin step, then one that is not waiting, is
/// refused before anything else is read; then the flow and the session are read, each
/// refused where missing; a verified input completes the step (on a branch where one was
/// taken) or fails it, and an outcome that is still waiting or asks for a retry is
/// refused; the transition then carries the flow on. Refused and finished submissions
/// stay as they are, and an event that does not belong to the stage changes nothing.
pub open spec fn submission_step_spec(
    state: SubmissionState,
    event: SubmissionEvent,
    next: SubmissionState,
    action: SubmissionAction,
) -> bool {
    match (state, event) {
        (SubmissionState::LoadingStep, SubmissionEvent::StepLoaded(step)) => match step {
            None => next == SubmissionState::Refused(StaffFlowError::StepNotFound) && action
                == SubmissionAction::Refuse(StaffFlowError::StepNotFound),
            Some(st) => if !eq_ignore_ascii_case_spec(st.actor@, "ADMIN"@) {
                next == SubmissionState::Refused(StaffFlowError::StepNotAdmin) && action
                    == SubmissionAction::Refuse(StaffFlowError::StepNotAdmin)
            } else if !eq_ignore_ascii_case_spec(st.status@, "WAITING"@) {
                next == SubmissionState::Refused(StaffFlowError::StepNotWaiting) && action
                    == SubmissionAction::Refuse(StaffFlowError::StepNotWaiting)
            } else {
                next == SubmissionState::LoadingFlow && action == SubmissionAction::LoadFlow
            },
        },
        (SubmissionState::LoadingFlow, SubmissionEvent::FlowLoaded { found }) => if found {
            next == SubmissionState::LoadingSession && action == SubmissionAction::LoadSession
        } else {
            next == SubmissionState::Refused(StaffFlowError::FlowNotFound) && action
                == SubmissionAction::Refuse(StaffFlowError::FlowNotFound)
        },
        (SubmissionState::LoadingSession, SubmissionEvent::SessionLoaded { found }) => if found {
            next == SubmissionState::Verifying && action == SubmissionAction::VerifyInput
        } else {
            next == SubmissionState::Refused(StaffFlowError::SessionNotFound) && action
                == SubmissionAction::Refuse(StaffFlowError::SessionNotFound)
        },
        (SubmissionState::Verifying, SubmissionEvent::Verified(outcome)) => match outcome {
            VerifyOutcome::Done => next == SubmissionState::Transitioning { failed: false }
                && action == SubmissionAction::RecordCompletion { branch: None },
            VerifyOutcome::Branched(b) => next == SubmissionState::Transitioning { failed: false }
                && action == SubmissionAction::RecordCompletion { branch: Some(b) },
            VerifyOutcome::Failed => next == SubmissionState::Transitioning { failed: true }
                && action == SubmissionAction::RecordFailure,
            _ => next == SubmissionState::Refused(StaffFlowError::InvalidAdminStepOutcome)
                && action == SubmissionAction::Refuse(StaffFlowError::InvalidAdminStepOutcome),
        },
        (
            SubmissionState::Transitioning { failed },
            SubmissionEvent::TransitionResolved { next: target, next_is_step },
        ) => {
            &&& next == SubmissionState::Finished
            &&& action matches SubmissionAction::Advance { advance, refresh_session }
            &&& flow_advance_matches(advance, target, next_is_step, failed)
            &&& refresh_session == (!failed || target is Some)
        },
        _ => next == state && action == SubmissionAction::Ignore,
    }
}

/// One step of an admin submission.
pub fn submission_step(state: SubmissionState, event: SubmissionEvent) -> (r: (
    SubmissionState,
    SubmissionAction,
))
    ensures
        submission_step_spec(state, event, r.0, r.1),
{
    match (state, event) {
        (SubmissionState::LoadingStep, SubmissionEvent::StepLoaded(step)) => {
            match check_admin_step(&step) {
                Err(e) => (SubmissionState::Refused(e), SubmissionAction::Refuse(e)),
                Ok(()) => {
                    let st = step.unwrap();
                    match check_step_waiting(st.status.as_str()) {
                        Err(e) => (SubmissionState::Refused(e), SubmissionAction::Refuse(e)),
                        Ok(()) => (SubmissionState::LoadingFlow, SubmissionAction::LoadFlow),
                    }
                },
            }
        },
        (SubmissionState::LoadingFlow, SubmissionEvent::FlowLoaded { found }) => if found {
            (SubmissionState::LoadingSession, SubmissionAction::LoadSession)
        } else {
            (
                SubmissionState::Refused(StaffFlowError::FlowNotFound),
                SubmissionAction::Refuse(StaffFlowError::FlowNotFound),
            )
        },
        (SubmissionState::LoadingSession, SubmissionEvent::SessionLoaded { found }) => if found {
            (SubmissionState::Verifying, SubmissionAction::VerifyInput)
        } else {
            (
                SubmissionState::Refused(StaffFlowError::SessionNotFound),
                SubmissionAction::Refuse(StaffFlowError::SessionNotFound),
            )
        },
        (SubmissionState::Verifying, SubmissionEvent::Verified(outcome)) => {
            match resolve_admin_outcome(outcome) {
                Err(e) => (SubmissionState::Refused(e), SubmissionAction::Refuse(e)),
                Ok(StepResolution::Failed) => (
                    SubmissionState::Transitioning { failed: true },
                    SubmissionAction::RecordFailure,
                ),
                Ok(StepResolution::Completed { branch }) => (
                    SubmissionState::Transitioning { failed: false },
                    SubmissionAction::RecordCompletion { branch },
                ),
            }
        },
        (
            SubmissionState::Transitioning { failed },
            SubmissionEvent::TransitionResolved { next, next_is_step },
        ) => {
            let refresh_session = session_refresh_needed(&next, failed);
            let advance = next_flow_action(next, next_is_step, failed);
            (SubmissionState::Finished, SubmissionAction::Advance { advance, refresh_session })
        },
        (state, _) => (state, SubmissionAction::Ignore),
    }
}

/// Nothing but a found admin step that is waiting leads to reading the flow: a missing
/// step, a step that is not an admin step, and one that is not waiting are refused first,
/// in that order.
pub proof fn law_flow_is_read_only_for_a_waiting_admin_step(
    state: SubmissionState,
    event: SubmissionEvent,
    next: SubmissionState,
    action: SubmissionAction,
)
    requires
        submission_step_spec(state, event, next, action),
        action == SubmissionAction::LoadFlow,
    ensures
        state == SubmissionState::LoadingStep,
        ({
            &&& event matches SubmissionEvent::StepLoaded(Some(st))
            &&& eq_ignore_ascii_case_spec(st.actor@, "ADMIN"@)
            &&& eq_ignore_ascii_case_spec(st.status@, "WAITING"@)
        }),
{
}

/// A failed outcome writes the step as failed and then takes the failure transition; where
/// that has no target the flow finishes as failed and the session is left as it is.
pub proof fn law_failure_path(
    event: SubmissionEvent,
    next: SubmissionState,
    action: SubmissionAction,
)
    requires
        submission_step_spec(
            SubmissionState::Transitioning { failed: true },
            event,
            next,
            action,
        ),
        event matches SubmissionEvent::TransitionResolved { next: None, .. },
    ensures
        next == SubmissionState::Finished,
        ({
            &&& action matches SubmissionAction::Advance { advance, refresh_session }
            &&& !refresh_session
            &&& advance matches FlowAdvance::Finish(status)
            &&& status@ == "FAILED"@
        }),
{
}

/// A resolved step whose transition has no target finishes the flow as the step ended:
/// as `COMPLETED` after a completed step, with the session's status refreshed, and as
/// `FAILED` after a failed one, with the session left as it is.
pub proof fn law_no_target_finishes_the_flow_as_the_step_ended(
    failed: bool,
    next_is_step: bool,
    next: SubmissionState,
    action: SubmissionAction,
)
    requires
        submission_step_spec(
            SubmissionState::Transitioning { failed },
            SubmissionEvent::TransitionResolved { next: None, next_is_step },
            next,
            action,
        ),
    ensures
        next == SubmissionState::Finished,
        ({
            &&& action matches SubmissionAction::Advance { advance, refresh_session }
            &&& refresh_session == !failed
            &&& advance matches FlowAdvance::Finish(status)
            &&& !failed ==> status@ == "COMPLETED"@
            &&& failed ==> status@ == "FAILED"@
        }),
{
}

/// A resolved step whose transition names a target carries the flow on there: a target
/// that is a step of the flow starts that step, another target finishes the flow with the
/// terminal status it names; either way the session's status is refreshed.
pub proof fn law_transition_target_carries_the_flow_on(
    failed: bool,
    target: String,
    next_is_step: bool,
    next: SubmissionState,
    action: SubmissionAction,
)
    requires
        submission_step_spec(
            SubmissionState::Transitioning { failed },
            SubmissionEvent::TransitionResolved { next: Some(target), next_is_step },
            next,
            action,
        ),
    ensures
        next == SubmissionState::Finished,
        ({
            &&& action matches SubmissionAction::Advance { advance, refresh_session }
            &&& refresh_session
            &&& next_is_step ==> advance == FlowAdvance::StartStep(target)
            &&& !next_is_step ==> advance == FlowAdvance::FinishAtTerminal(target)
        }),
{
}

/// Refused and finished submissions stay as they are, whatever comes.
pub proof fn law_refused_and_finished_are_final(
    state: SubmissionState,
    event: SubmissionEvent,
    next: SubmissionState,
    action: SubmissionAction,
)
    requires
        submission_step_spec(state, event, next, action),
        state is Finished || state is Refused,
    ensures
        next == state,
        action == SubmissionAction::Ignore,
{
}

/// A flow session, as the staff listing reads it; times are in UNIX microseconds.
pub struct SessionRow {
    pub id: String,
    pub human_id: String,
    pub session_type: String,
    pub status: String,
    pub user_id: Option<String>,
    pub context: serde_json::Value,
    pub created_at: i64,
    pub updated_at: i64,
}

/// The contact details of a user.
pub struct UserContact {
    pub user_id: String,
    pub phone_number: Option<String>,
    pub full_name: Option<String>,
}

/// A session as the staff API shows it, with its user's contact details where known.
pub struct StaffSessionResponse {
    pub id: String,
    pub human_id: String,
    pub session_type: String,
    pub status: String,
    pub user_id: Option<String>,
    pub phone_number: Option<String>,
    pub full_name: Option<String>,
    pub context: serde_json::Value,
    pub created_at: i64,
    pub updated_at: i64,
}

/// A session with its flows.
pub struct StaffSessionDetailResponse<F> {
    pub session: StaffSessionResponse,
    pub flows: Vec<F>,
}

/// A page of sessions.
pub struct StaffSessionListResponse {
    pub items: Vec<StaffSessionResponse>,
    pub page: i32,
    pub limit: i32,
    pub total: i64,
}

/// The position of the first contact of user `id` in `users` from `k` on, if any.
pub open spec fn find_user_from(users: Seq<UserContact>, id: Seq<char>, k: int) -> Option<int>
    decreases users.len() - k,
{
    if 0 <= k < users.len() {
        if users[k].user_id@ == id {
            Some(k)
        } else {
            find_user_from(users, id, k + 1)
        }
    } else {
        None
    }
}

/// The contact of the session's user, if the session has a user whose contact is known.
pub open spec fn session_contact(users: Seq<UserContact>, user_id: Option<String>) -> Option<
    UserContact,
> {
    match user_id {
        Some(u) => match find_user_from(users, u@, 0) {
            Some(k) => Some(users[k]),
            None => None,
        },
        None => None,
    }
}

proof fn lemma_find_user_from(users: Seq<UserContact>, id: Seq<char>, k: int)
    requires
        0 <= k,
    ensures
        find_user_from(users, id, k) matches Some(j) ==> {
            &&& k <= j < users.len()
            &&& users[j].user_id@ == id
            &&& forall|i: int| k <= i < j ==> (#[trigger] users[i]).user_id@ != id
        },
        find_user_from(users, id, k) is None ==> forall|i: int|
            k <= i < users.len() ==> (#[trigger] users[i]).user_id@ != id,
    decreases users.len() - k,
{
    if k < users.len() && users[k].user_id@ != id {
        lemma_find_user_from(users, id, k + 1);
    }
}

/// The staff view of a session shows the contact of the session's own user: where a
/// loaded contact has the session's user ID, the phone number and full name are those of
/// the first such contact; where none has (or the session has no user), both are absent.
pub proof fn law_session_view_shows_the_users_own_contact(row: SessionRow, users: Seq<UserContact>)
    ensures
        ({
            let view = staff_session_view(row, users);
            match row.user_id {
                Some(u) => if exists|j: int| 0 <= j < users.len() && (#[trigger] users[j]).user_id@
                    == u@ {
                    exists|j: int|
                        #![trigger users[j]]
                        0 <= j < users.len() && users[j].user_id@ == u@ && view.phone_number
                            == users[j].phone_number && view.full_name == users[j].full_name
                            && forall|i: int| 0 <= i < j ==> (#[trigger] users[i]).user_id@ != u@
                } else {
                    view.phone_number is None && view.full_name is None
                },
                None => view.phone_number is None && view.full_name is None,
            }
        }),
{
    match row.user_id {
        Some(u) => {
            lemma_find_user_from(users, u@, 0);
            match find_user_from(users, u@, 0) {
                Some(j) => {
                    assert(users[j].user_id@ == u@);
                },
                None => {},
            }
        },
        None => {},
    }
}

fn find_user(users: &Vec<UserContact>, id: &String) -> (r: Option<usize>)
    ensures
        r matches Some(k) ==> k < users@.len() && find_user_from(users@, id@, 0) == Some(k as int),
        r is None ==> find_user_from(users@, id@, 0) is None,
{
    let mut k: usize = 0;
    while k < users.len()
        invariant
            k <= users@.len(),
            find_user_from(users@, id@, 0) == find_user_from(users@, id@, k as int),
        decreases users@.len() - k,
    {
        if users[k].user_id == *id {
            return Some(k);
        }
        k = k + 1;
    }
    None
}

/// Whether the contact of user `user_id` still has to be looked up, given those already
/// loaded.
pub fn contact_lookup_needed(user_id: &String, loaded: &Vec<UserContact>) -> (b: bool)
    ensures
        b == (find_user_from(loaded@, user_id@, 0) is None),
{
    find_user(loaded, user_id).is_none()
}

fn clone_opt(o: &Option<String>) -> (r: Option<String>)
    ensures
        r == *o,
{
    match o {
        Some(s) => Some(s.clone()),
        None => None,
    }
}

/// The staff view of a session: its fields, and the phone number and full name of its
/// user where that user's contact is among `users`.
pub open spec fn staff_session_view(row: SessionRow, users: Seq<UserContact>) -> StaffSessionResponse {
    StaffSessionResponse {
        id: row.id,
        human_id: row.human_id,
        session_type: row.session_type,
        status: row.status,
        user_id: row.user_id,
        phone_number: match session_contact(users, row.user_id) {
            Some(c) => c.phone_number,
            None => None,
        },
        full_name: match session_contact(users, row.user_id) {
            Some(c) => c.full_name,
            None => None,
        },
        context: row.context,
        created_at: row.created_at,
        updated_at: row.updated_at,
    }
}

/// The staff view of a session: its fields, and the phone number and full name of its
/// user where that user's contact is among `users`.
pub fn build_staff_session_response(row: SessionRow, users: &Vec<UserContact>) -> (r:
    StaffSessionResponse)
    ensures
        r.id == row.id,
        r.human_id == row.human_id,
        r.session_type == row.session_type,
        r.status == row.status,
        r.user_id == row.user_id,
        r.context == row.context,
        r.created_at == row.created_at,
        r.updated_at == row.updated_at,
        r.phone_number == match session_contact(users@, row.user_id) {
            Some(c) => c.phone_number,
            None => None,
        },
        r.full_name == match session_contact(users@, row.user_id) {
            Some(c) => c.full_name,
            None => None,
        },
        r == staff_session_view(row, users@),
{
    let ghost contact = session_contact(users@, row.user_id);
    let mut phone_number: Option<String> = None;
    let mut full_name: Option<String> = None;
    match &row.user_id {
        Some(u) => match find_user(users, u) {
            Some(k) => {
                assert(contact == Some(users@[k as int]));
                phone_number = clone_opt(&users[k].phone_number);
                full_name = clone_opt(&users[k].full_name);
            },
            None => {
                assert(contact is None);
            },
        },
        None => {},
    }
    StaffSessionResponse {
        id: row.id,
        human_id: row.human_id,
        session_type: row.session_type,
        status: row.status,
        user_id: row.user_id,
        phone_number,
        full_name,
        context: row.context,
        created_at: row.created_at,
        updated_at: row.updated_at,
    }
}

/// The answer to a session listing: for an empty listing, no items, its page and size and
/// a total of zero; for a fetched one, the staff view of each fetched session in order,
/// the filter's page and size, and the store's total.
pub fn session_listing_response(
    listing: SessionListing,
    rows: Vec<SessionRow>,
    total: i64,
    users: &Vec<UserContact>,
) -> (r: StaffSessionListResponse)
    ensures
        match listing {
            SessionListing::Empty { page, limit } => {
                &&& r.items@.len() == 0
                &&& r.page == page
                &&& r.limit == limit
                &&& r.total == 0
            },
            SessionListing::Fetch(f) => {
                &&& r.items@.len() == rows@.len()
                &&& forall|k: int|
                    0 <= k < rows@.len() ==> #[trigger] r.items@[k] == staff_session_view(
                        rows@[k],
                        users@,
                    )
                &&& r.page == f.page
                &&& r.limit == f.limit
                &&& r.total == total
            },
        },
{
    match listing {
        SessionListing::Empty { page, limit } => StaffSessionListResponse {
            items: Vec::new(),
            page,
            limit,
            total: 0,
        },
        SessionListing::Fetch(f) => {
            let ghost all = rows@;
            let mut rest = rows;
            let mut items: Vec<StaffSessionResponse> = Vec::new();
            let ghost mut k: int = 0;
            proof {
                assert(all.skip(0) =~= all);
            }
            while rest.len() > 0
                invariant
                    0 <= k <= all.len(),
                    rest@ == all.skip(k),
                    items@.len() == k,
                    forall|j: int|
                        0 <= j < k ==> #[trigger] items@[j] == staff_session_view(all[j], users@),
                decreases rest@.len(),
            {
                let row = rest.remove(0);
                proof {
                    assert(row == all[k]);
                    assert(rest@ =~= all.skip(k + 1));
                }
                items.push(build_staff_session_response(row, users));
                proof {
                    k = k + 1;
                }
            }
            StaffSessionListResponse { items, page: f.page, limit: f.limit, total }
        },
    }
}

} // verus!
