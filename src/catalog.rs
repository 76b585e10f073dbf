use vstd::prelude::*;

verus! {

/// One launchable entry of the catalog.
pub struct AppEntry {
    pub name: String,
    pub category: String,
    pub command: String,
    pub terminal: bool,
}

/// The views of a list of strings.
pub open spec fn views(v: Seq<String>) -> Seq<Seq<char>> {
    v.map_values(|s: String| s@)
}

/// Name of the synthetic category that lists recently launched entries.
pub open spec fn is_recent(name: Seq<char>) -> bool {
    name == "Recent"@
}

/// Score of the item at position `p`; items without a match score nothing.
pub open spec fn key_at(ks: Seq<Option<i64>>, p: usize) -> int {
    match ks[p as int] {
        Some(v) => v as int,
        None => 0,
    }
}

/// Puts position `p` into a ranked list, after every item that scores at least as high.
pub open spec fn insert_ranked(r: Seq<usize>, p: usize, ks: Seq<Option<i64>>) -> Seq<usize>
    decreases r.len(),
{
    if r.len() == 0 {
        seq![p]
    } else if key_at(ks, r[0]) < key_at(ks, p) {
        seq![p] + r
    } else {
        seq![r[0]] + insert_ranked(r.drop_first(), p, ks)
    }
}

/// The matched positions among the first `n`, by descending score, equal scores in
/// the order of their positions.
pub open spec fn ranked(ks: Seq<Option<i64>>, n: nat) -> Seq<usize>
    decreases n,
{
    if n == 0 {
        seq![]
    } else {
        let prev = ranked(ks, (n - 1) as nat);
        if ks[n - 1] is Some {
            insert_ranked(prev, (n - 1) as usize, ks)
        } else {
            prev
        }
    }
}

/// Scores never increase along `r`, and equal scores keep the order of their positions.
pub open spec fn ordered(r: Seq<usize>, ks: Seq<Option<i64>>) -> bool {
    forall|i: int, j: int|
        0 <= i < j < r.len() ==> key_at(ks, r[i]) > key_at(ks, r[j]) || (key_at(ks, r[i])
            == key_at(ks, r[j]) && r[i] < r[j])
}

/// Some item among the positions of `ks` has a match.
pub open spec fn matched_any(ks: Seq<Option<i64>>) -> bool {
    exists|p: int| 0 <= p < ks.len() && ks[p] is Some
}

proof fn lemma_insert_ranked(r: Seq<usize>, p: usize, ks: Seq<Option<i64>>)
    requires
        ordered(r, ks),
        forall|i: int| 0 <= i < r.len() ==> r[i] < p && ks[r[i] as int] is Some,
        ks[p as int] is Some,
    ensures
        ordered(insert_ranked(r, p, ks), ks),
        insert_ranked(r, p, ks).len() == r.len() + 1,
        forall|i: int|
            0 <= i < insert_ranked(r, p, ks).len() ==> insert_ranked(r, p, ks)[i] <= p
                && ks[insert_ranked(r, p, ks)[i] as int] is Some,
    decreases r.len(),
{
    if r.len() == 0 {
    } else if key_at(ks, r[0]) < key_at(ks, p) {
        let s = seq![p] + r;
        assert(s == insert_ranked(r, p, ks));
        assert forall|i: int, j: int| 0 <= i < j < s.len() implies key_at(ks, s[i]) > key_at(
            ks,
            s[j],
        ) || (key_at(ks, s[i]) == key_at(ks, s[j]) && s[i] < s[j]) by {
            if i == 0 {
                assert(s[j] == r[j - 1]);
                if j > 1 {
                    assert(key_at(ks, r[0]) >= key_at(ks, r[j - 1]));
                }
            } else {
                assert(s[i] == r[i - 1] && s[j] == r[j - 1]);
            }
        }
    } else {
        let t = r.drop_first();
        assert forall|i: int, j: int| 0 <= i < j < t.len() implies key_at(ks, t[i]) > key_at(
            ks,
            t[j],
        ) || (key_at(ks, t[i]) == key_at(ks, t[j]) && t[i] < t[j]) by {
            assert(t[i] == r[i + 1] && t[j] == r[j + 1]);
        }
        lemma_insert_ranked(t, p, ks);
        let u = insert_ranked(t, p, ks);
        let s = seq![r[0]] + u;
        assert(s == insert_ranked(r, p, ks));
        assert forall|i: int, j: int| 0 <= i < j < s.len() implies key_at(ks, s[i]) > key_at(
            ks,
            s[j],
        ) || (key_at(ks, s[i]) == key_at(ks, s[j]) && s[i] < s[j]) by {
            if i == 0 {
                assert(s[j] == u[j - 1]);
                lemma_insert_ranked_from(t, p, ks, j - 1);
                if u[j - 1] != p {
                    assert(key_at(ks, r[0]) > key_at(ks, u[j - 1]) || (key_at(ks, r[0]) == key_at(
                        ks,
                        u[j - 1],
                    ) && r[0] < u[j - 1])) by {
                        let k = choose|k: int| 0 <= k < t.len() && t[k] == u[j - 1];
                        assert(r[k + 1] == t[k]);
                    }
                }
            } else {
                assert(s[i] == u[i - 1] && s[j] == u[j - 1]);
            }
        }
        assert forall|i: int| 0 <= i < s.len() implies s[i] <= p && ks[s[i] as int] is Some by {
            if i > 0 {
                assert(s[i] == u[i - 1]);
            }
        }
    }
}

/// Every item of `insert_ranked(r, p, ks)` is `p` or an item of `r`.
proof fn lemma_insert_ranked_from(r: Seq<usize>, p: usize, ks: Seq<Option<i64>>, i: int)
    requires
        0 <= i < insert_ranked(r, p, ks).len(),
    ensures
        insert_ranked(r, p, ks)[i] == p || exists|k: int|
            0 <= k < r.len() && r[k] == insert_ranked(r, p, ks)[i],
    decreases r.len(),
{
    if r.len() == 0 {
    } else if key_at(ks, r[0]) < key_at(ks, p) {
        if i > 0 {
            assert(r[i - 1] == insert_ranked(r, p, ks)[i]);
        }
    } else {
        let t = r.drop_first();
        if i == 0 {
            assert(r[0] == insert_ranked(r, p, ks)[i]);
        } else {
            lemma_insert_ranked_from(t, p, ks, i - 1);
            if insert_ranked(r, p, ks)[i] != p {
                let k = choose|k: int| 0 <= k < t.len() && t[k] == insert_ranked(t, p, ks)[i - 1];
                assert(r[k + 1] == insert_ranked(r, p, ks)[i]);
            }
        }
    }
}

proof fn lemma_insert_ranked_keeps(r: Seq<usize>, p: usize, ks: Seq<Option<i64>>)
    ensures
        insert_ranked(r, p, ks).contains(p),
        forall|x: usize| r.contains(x) ==> insert_ranked(r, p, ks).contains(x),
    decreases r.len(),
{
    let s = insert_ranked(r, p, ks);
    if r.len() == 0 {
        assert(s[0] == p);
    } else if key_at(ks, r[0]) < key_at(ks, p) {
        assert(s[0] == p);
        assert forall|x: usize| r.contains(x) implies s.contains(x) by {
            let k = choose|k: int| 0 <= k < r.len() && r[k] == x;
            assert(s[k + 1] == x);
        }
    } else {
        let t = r.drop_first();
        lemma_insert_ranked_keeps(t, p, ks);
        let u = insert_ranked(t, p, ks);
        assert(s == seq![r[0]] + u);
        let kp = choose|k: int| 0 <= k < u.len() && u[k] == p;
        assert(s[kp + 1] == p);
        assert forall|x: usize| r.contains(x) implies s.contains(x) by {
            let k = choose|k: int| 0 <= k < r.len() && r[k] == x;
            if k == 0 {
                assert(s[0] == x);
            } else {
                assert(t[k - 1] == x);
                assert(t.contains(x));
                let m = choose|m: int| 0 <= m < u.len() && u[m] == x;
                assert(s[m + 1] == x);
            }
        }
    }
}

/// Every matched position among the first `n` is in the ranking.
pub proof fn lemma_ranked_complete(ks: Seq<Option<i64>>, n: nat)
    requires
        n <= ks.len(),
        n <= usize::MAX,
    ensures
        forall|p: int| 0 <= p < n && ks[p] is Some ==> ranked(ks, n).contains(p as usize),
    decreases n,
{
    if n > 0 {
        lemma_ranked_complete(ks, (n - 1) as nat);
        if ks[n - 1] is Some {
            lemma_insert_ranked_keeps(ranked(ks, (n - 1) as nat), (n - 1) as usize, ks);
        }
    }
}

/// The ranking holds matched positions only, is ordered, and is empty only when
/// nothing matched.
pub proof fn lemma_ranked(ks: Seq<Option<i64>>, n: nat)
    requires
        n <= ks.len(),
        n <= usize::MAX,
    ensures
        ordered(ranked(ks, n), ks),
        forall|i: int|
            0 <= i < ranked(ks, n).len() ==> ranked(ks, n)[i] < n && ks[ranked(ks, n)[i] as int] is Some,
        ranked(ks, n).len() == 0 <==> !(exists|p: int| 0 <= p < n && ks[p] is Some),
    decreases n,
{
    if n > 0 {
        lemma_ranked(ks, (n - 1) as nat);
        if ks[n - 1] is Some {
            lemma_insert_ranked(ranked(ks, (n - 1) as nat), (n - 1) as usize, ks);
        } else {
            if exists|p: int| 0 <= p < n && ks[p] is Some {
                let p = choose|p: int| 0 <= p < n && ks[p] is Some;
                assert(p < n - 1);
            }
        }
    }
}

proof fn lemma_insert_at(r: Seq<usize>, p: usize, ks: Seq<Option<i64>>, j: int)
    requires
        0 <= j <= r.len(),
        forall|k: int| 0 <= k < j ==> key_at(ks, r[k]) >= key_at(ks, p),
        j < r.len() ==> key_at(ks, r[j]) < key_at(ks, p),
    ensures
        insert_ranked(r, p, ks) == r.insert(j, p),
    decreases r.len(),
{
    if r.len() == 0 {
        assert(r.insert(j, p) =~= seq![p]);
    } else if j == 0 {
        assert(r.insert(j, p) =~= seq![p] + r);
    } else {
        let t = r.drop_first();
        lemma_insert_at(t, p, ks, j - 1);
        assert(r.insert(j, p) =~= seq![r[0]] + t.insert(j - 1, p));
    }
}

fn score_of(o: Option<i64>) -> (r: i64)
    ensures
        o matches Some(v) ==> r == v,
        o is None ==> r == 0,
{
    match o {
        Some(v) => v,
        None => 0,
    }
}

/// Positions of the matched items of `ks`, best score first; equal scores keep their order.
pub fn rank(ks: &Vec<Option<i64>>) -> (r: Vec<usize>)
    ensures
        r@ == ranked(ks@, ks@.len()),
{
    let mut r: Vec<usize> = Vec::new();
    let mut n: usize = 0;
    while n < ks.len()
        invariant
            n <= ks@.len(),
            r@ == ranked(ks@, n as nat),
        decreases ks@.len() - n,
    {
        proof {
            lemma_ranked(ks@, n as nat);
        }
        match ks[n] {
            Some(s) => {
                let mut j: usize = 0;
                while j < r.len() && score_of(ks[r[j]]) >= s
                    invariant
                        n < ks@.len(),
                        ks@[n as int] == Some(s),
                        r@ == ranked(ks@, n as nat),
                        forall|i: int| 0 <= i < r@.len() ==> r@[i] < n,
                        j <= r@.len(),
                        forall|k: int| 0 <= k < j ==> key_at(ks@, r@[k]) >= key_at(ks@, n),
                    decreases r@.len() - j,
                {
                    j = j + 1;
                }
                proof {
                    lemma_insert_at(r@, n, ks@, j as int);
                }
                r.insert(j, n);
            },
            None => {},
        }
        n = n + 1;
    }
    r
}

/// Positions, among the first `n` entries, of those filed under category `cat`.
pub open spec fn category_members(apps: Seq<AppEntry>, cat: Seq<char>, n: nat) -> Seq<usize>
    decreases n,
{
    if n == 0 {
        seq![]
    } else {
        let prev = category_members(apps, cat, (n - 1) as nat);
        if apps[n - 1].category@ == cat {
            prev.push((n - 1) as usize)
        } else {
            prev
        }
    }
}

/// Position of the first entry at or after `k` whose name is `name`.
pub open spec fn first_named(apps: Seq<AppEntry>, name: Seq<char>, k: nat) -> Option<usize>
    decreases apps.len() - k,
{
    if k >= apps.len() {
        None
    } else if apps[k as int].name@ == name {
        Some(k as usize)
    } else {
        first_named(apps, name, k + 1)
    }
}

/// Some recent name is `name`.
pub open spec fn named_recently(recent: Seq<String>, name: Seq<char>) -> bool {
    exists|k: int| 0 <= k < recent.len() && recent[k]@ == name
}

/// Entry `i` stands for a recent name: its name is recent and no earlier entry bears it.
pub open spec fn is_recent_entry(apps: Seq<AppEntry>, recent: Seq<String>, i: int) -> bool {
    named_recently(recent, apps[i].name@) && first_named(apps, apps[i].name@, 0) == Some(i as usize)
}

/// Positions, among the first `n` entries, of those that stand for a recent name, in
/// catalog order.
pub open spec fn recent_members(apps: Seq<AppEntry>, recent: Seq<String>, n: nat) -> Seq<usize>
    decreases n,
{
    if n == 0 {
        seq![]
    } else {
        let prev = recent_members(apps, recent, (n - 1) as nat);
        if is_recent_entry(apps, recent, n - 1) {
            prev.push((n - 1) as usize)
        } else {
            prev
        }
    }
}

/// The entries that the category named `cat` holds, in catalog order.
pub open spec fn members(apps: Seq<AppEntry>, recent: Seq<String>, cat: Seq<char>) -> Seq<usize> {
    if is_recent(cat) {
        recent_members(apps, recent, apps.len())
    } else {
        category_members(apps, cat, apps.len())
    }
}

/// Positions that only grow along the list.
pub open spec fn increasing(m: Seq<usize>) -> bool {
    forall|i: int, j: int| 0 <= i < j < m.len() ==> m[i] < m[j]
}

/// The entries of a plain category come in catalog order.
pub proof fn lemma_category_members_increasing(apps: Seq<AppEntry>, cat: Seq<char>, n: nat)
    requires
        n <= usize::MAX,
    ensures
        increasing(category_members(apps, cat, n)),
        forall|i: int| 0 <= i < category_members(apps, cat, n).len() ==> category_members(apps, cat, n)[i] < n,
        category_members(apps, cat, n).len() <= n,
    decreases n,
{
    if n > 0 {
        lemma_category_members_increasing(apps, cat, (n - 1) as nat);
    }
}

/// The entries of the recent category come in catalog order.
pub proof fn lemma_recent_members_increasing(apps: Seq<AppEntry>, recent: Seq<String>, n: nat)
    requires
        n <= usize::MAX,
    ensures
        increasing(recent_members(apps, recent, n)),
        forall|i: int| 0 <= i < recent_members(apps, recent, n).len() ==> recent_members(apps, recent, n)[i] < n,
        recent_members(apps, recent, n).len() <= n,
    decreases n,
{
    if n > 0 {
        lemma_recent_members_increasing(apps, recent, (n - 1) as nat);
    }
}

/// A category holds no more entries than the catalog, in catalog order.
pub proof fn lemma_members_len(apps: Seq<AppEntry>, recent: Seq<String>, cat: Seq<char>)
    requires
        apps.len() <= usize::MAX,
    ensures
        members(apps, recent, cat).len() <= usize::MAX,
        increasing(members(apps, recent, cat)),
{
    lemma_category_members_increasing(apps, cat, apps.len());
    lemma_recent_members_increasing(apps, recent, apps.len());
}

/// Whether some recent name is `name`.
fn is_named_recently(recent: &Vec<String>, name: &String) -> (r: bool)
    ensures
        r == named_recently(recent@, name@),
{
    let mut k: usize = 0;
    while k < recent.len()
        invariant
            k <= recent@.len(),
            forall|j: int| 0 <= j < k ==> recent@[j]@ != name@,
        decreases recent@.len() - k,
    {
        if recent[k] == *name {
            return true;
        }
        k = k + 1;
    }
    false
}

/// Position of the first entry at or after `k` whose command is `command`.
pub open spec fn first_with_command(apps: Seq<AppEntry>, command: Seq<char>, k: nat) -> Option<usize>
    decreases apps.len() - k,
{
    if k >= apps.len() {
        None
    } else if apps[k as int].command@ == command {
        Some(k as usize)
    } else {
        first_with_command(apps, command, k + 1)
    }
}

proof fn lemma_first_with_command(apps: Seq<AppEntry>, command: Seq<char>, k: nat)
    requires
        apps.len() <= usize::MAX,
    ensures
        first_with_command(apps, command, k) matches Some(i) ==> k <= i < apps.len()
            && apps[i as int].command@ == command,
    decreases apps.len() - k,
{
    if k < apps.len() && apps[k as int].command@ != command {
        lemma_first_with_command(apps, command, k + 1);
    }
}

/// The entry that a chosen command came from: the first whose command it is.
pub fn entry_for_command(apps: &Vec<AppEntry>, command: &String) -> (r: Option<usize>)
    ensures
        r == first_with_command(apps@, command@, 0),
        r matches Some(i) ==> i < apps@.len() && apps@[i as int].command@ == command@ && forall|j: int|
            0 <= j < i ==> apps@[j].command@ != command@,
        r is None ==> forall|j: int| 0 <= j < apps@.len() ==> apps@[j].command@ != command@,
{
    let mut k: usize = 0;
    while k < apps.len()
        invariant
            k <= apps@.len(),
            first_with_command(apps@, command@, 0) == first_with_command(apps@, command@, k as nat),
            forall|j: int| 0 <= j < k ==> apps@[j].command@ != command@,
        decreases apps@.len() - k,
    {
        if apps[k].command == *command {
            proof {
                lemma_first_with_command(apps@, command@, k as nat);
            }
            return Some(k);
        }
        k = k + 1;
    }
    None
}

/// The names among the first `n` of `recent` other than `name`, in order.
pub open spec fn other_names(recent: Seq<String>, name: Seq<char>, n: nat) -> Seq<Seq<char>>
    decreases n,
{
    if n == 0 {
        seq![]
    } else {
        let prev = other_names(recent, name, (n - 1) as nat);
        if recent[n - 1]@ == name {
            prev
        } else {
            prev.push(recent[n - 1]@)
        }
    }
}

/// The recency list after launching `name`: the name first, then the others in their
/// order, at most `capacity` names in all.
pub open spec fn recent_after(recent: Seq<String>, name: Seq<char>, capacity: nat) -> Seq<Seq<char>> {
    let all = seq![name] + other_names(recent, name, recent.len());
    if capacity < all.len() {
        all.subrange(0, capacity as int)
    } else {
        all
    }
}

/// Puts a launched name at the front of the recency list, removing its earlier place
/// and keeping at most `capacity` names.
pub fn add_to_recent(recent: &mut Vec<String>, name: &String, capacity: usize)
    ensures
        views(final(recent)@) == recent_after(old(recent)@, name@, capacity as nat),
{
    let mut others: Vec<String> = Vec::new();
    let mut i: usize = 0;
    while i < recent.len()
        invariant
            i <= recent@.len(),
            recent@ == old(recent)@,
            views(others@) == other_names(recent@, name@, i as nat),
        decreases recent@.len() - i,
    {
        if recent[i] != *name {
            let s = recent[i].clone();
            others.push(s);
            assert(views(others@) =~= other_names(recent@, name@, (i + 1) as nat));
        }
        i = i + 1;
    }
    let ghost all = seq![name@] + views(others@);
    let mut r: Vec<String> = Vec::new();
    if capacity > 0 {
        r.push(name.clone());
        assert(views(r@) =~= all.subrange(0, 1));
    }
    let mut j: usize = 0;
    while j < others.len() && r.len() < capacity
        invariant
            j <= others@.len(),
            all == seq![name@] + views(others@),
            r@.len() <= capacity,
            r@.len() == (if capacity == 0 { 0 } else { j + 1 }),
            views(r@) == all.subrange(0, r@.len() as int),
        decreases others@.len() - j,
    {
        let s = others[j].clone();
        r.push(s);
        j = j + 1;
        assert(views(r@) =~= all.subrange(0, r@.len() as int));
    }
    assert(all.subrange(0, all.len() as int) =~= all);
    *recent = r;
}

/// Every position in `m` names an entry of a catalog of `len` entries.
pub open spec fn in_catalog(m: Seq<usize>, len: nat) -> bool {
    forall|i: int| 0 <= i < m.len() ==> m[i] < len
}

proof fn lemma_first_named_bound(apps: Seq<AppEntry>, name: Seq<char>, k: nat)
    requires
        apps.len() <= usize::MAX,
    ensures
        first_named(apps, name, k) matches Some(i) ==> i < apps.len() && apps[i as int].name@
            == name,
    decreases apps.len() - k,
{
    if k < apps.len() && apps[k as int].name@ != name {
        lemma_first_named_bound(apps, name, k + 1);
    }
}

/// Position of the first entry whose name is `name`.
fn find_named(apps: &Vec<AppEntry>, name: &String) -> (r: Option<usize>)
    ensures
        r == first_named(apps@, name@, 0),
        r matches Some(i) ==> i < apps@.len(),
{
    let mut k: usize = 0;
    while k < apps.len()
        invariant
            k <= apps@.len(),
            first_named(apps@, name@, 0) == first_named(apps@, name@, k as nat),
        decreases apps@.len() - k,
    {
        if apps[k].name == *name {
            proof {
                lemma_first_named_bound(apps@, name@, 0);
            }
            return Some(k);
        }
        k = k + 1;
    }
    None
}

/// The entries that the category named `cat` holds, in catalog order: for "Recent" the
/// first entry of each recent name, for any other name the entries filed under it.
pub fn members_of(apps: &Vec<AppEntry>, recent: &Vec<String>, cat: &String) -> (r: Vec<usize>)
    ensures
        r@ == members(apps@, recent@, cat@),
        in_catalog(r@, apps@.len()),
{
    let recent_name = String::from_str("Recent");
    proof {
        reveal_strlit("Recent");
    }
    let mut r: Vec<usize> = Vec::new();
    if *cat == recent_name {
        let mut n: usize = 0;
        while n < apps.len()
            invariant
                n <= apps@.len(),
                r@ == recent_members(apps@, recent@, n as nat),
                in_catalog(r@, apps@.len()),
            decreases apps@.len() - n,
        {
            if is_named_recently(recent, &apps[n].name) && find_named(apps, &apps[n].name) == Some(n) {
                r.push(n);
            }
            n = n + 1;
        }
    } else {
        let mut n: usize = 0;
        while n < apps.len()
            invariant
                n <= apps@.len(),
                r@ == category_members(apps@, cat@, n as nat),
                in_catalog(r@, apps@.len()),
            decreases apps@.len() - n,
        {
            if apps[n].category == *cat {
                r.push(n);
            }
            n = n + 1;
        }
    }
    r
}

} // verus!
