use vstd::prelude::*;

verus! {

/// Index of the last `/` in `p`, or -1 when it holds none.
pub open spec fn last_slash(p: Seq<char>) -> int
    decreases p.len(),
{
    if p.len() == 0 {
        -1
    } else if p.last() == '/' {
        p.len() - 1
    } else {
        last_slash(p.drop_last())
    }
}

/// 1 when `p` starts at the root `/`, else 0: the length of its root.
pub open spec fn root_len(p: Seq<char>) -> int {
    if p.len() > 0 && p[0] == '/' {
        1
    } else {
        0
    }
}

/// `p` without what ends it but names no component: trailing separators (but
/// not the root) and `.` components that follow a separator.
pub open spec fn trim_back(p: Seq<char>) -> Seq<char>
    decreases p.len(),
{
    if p.len() > root_len(p) && p.last() == '/' {
        trim_back(p.drop_last())
    } else if p.len() >= 2 && p.last() == '.' && p[p.len() - 2] == '/' {
        trim_back(p.drop_last())
    } else {
        p
    }
}

/// The file name of a path: its last component, the text after the last `/`
/// once trailing separators and `.` components are set aside.
pub open spec fn file_name_of(p: Seq<char>) -> Seq<char> {
    let t = trim_back(p);
    t.subrange(last_slash(t) + 1, t.len() as int)
}

pub open spec fn views(v: Seq<String>) -> Seq<Seq<char>> {
    v.map_values(|s: String| s@)
}

/// Whether the name at index `i` occurs at another index of `names` too.
pub open spec fn is_shared(names: Seq<Seq<char>>, i: int) -> bool {
    exists|j: int| 0 <= j < names.len() && j != i && names[j] == names[i]
}

/// The entries among the first `k` of `names` whose name occurs more than once in
/// `names`, in order.
pub open spec fn shared_upto(names: Seq<Seq<char>>, k: int) -> Seq<Seq<char>>
    decreases k,
{
    if k <= 0 {
        Seq::empty()
    } else if is_shared(names, k - 1) {
        shared_upto(names, k - 1).push(names[k - 1])
    } else {
        shared_upto(names, k - 1)
    }
}

/// Every entry of `names` whose name occurs more than once, in order.
pub open spec fn duplicates_of(names: Seq<Seq<char>>) -> Seq<Seq<char>> {
    shared_upto(names, names.len() as int)
}

/// The end of `path[..end]` once trailing separators and `.` components are
/// set aside.
pub fn trimmed_end(path: &str, end: usize) -> (r: usize)
    requires
        end <= path@.len(),
    ensures
        r <= end,
        path@.subrange(0, r as int) == trim_back(path@.subrange(0, end as int)),
{
    let mut e: usize = end;
    loop
        invariant
            e <= end <= path@.len(),
            trim_back(path@.subrange(0, e as int)) == trim_back(path@.subrange(0, end as int)),
        decreases e,
    {
        let ghost cur = path@.subrange(0, e as int);
        let root: usize = if e > 0 && path.get_char(0) == '/' {
            1
        } else {
            0
        };
        proof {
            assert(root == root_len(cur));
        }
        if e > root && path.get_char(e - 1) == '/' {
            proof {
                assert(cur.drop_last() =~= path@.subrange(0, e - 1));
            }
            e = e - 1;
        } else if e >= 2 && path.get_char(e - 1) == '.' && path.get_char(e - 2) == '/' {
            proof {
                assert(cur.drop_last() =~= path@.subrange(0, e - 1));
            }
            e = e - 1;
        } else {
            return e;
        }
    }
}

/// The index of the last `/` in `path[..end]`, if any.
pub fn find_last_slash(path: &str, end: usize) -> (r: Option<usize>)
    requires
        end <= path@.len(),
    ensures
        r matches Some(k) ==> last_slash(path@.subrange(0, end as int)) == k && k < end,
        r is None ==> last_slash(path@.subrange(0, end as int)) == -1,
{
    let ghost p = path@.subrange(0, end as int);
    let mut k: usize = end;
    while k > 0 && path.get_char(k - 1) != '/'
        invariant
            k <= end <= path@.len(),
            p == path@.subrange(0, end as int),
            forall|j: int| k <= j < end ==> p[j] != '/',
        decreases k,
    {
        k = k - 1;
    }
    proof {
        if k > 0 {
            assert(p[k - 1] == path@[k - 1]);
        }
        lemma_last_slash_is(p, k - 1);
    }
    if k > 0 {
        Some(k - 1)
    } else {
        None
    }
}

/// The file name of `path`: its last component.
pub fn file_name(path: &str) -> (r: String)
    ensures
        r@ == file_name_of(path@),
{
    let n: usize = path.unicode_len();
    let e = trimmed_end(path, n);
    proof {
        assert(path@.subrange(0, n as int) =~= path@);
    }
    let start: usize = match find_last_slash(path, e) {
        Some(k) => k + 1,
        None => 0,
    };
    let r = String::from_str(path.substring_char(start, e));
    proof {
        let t = path@.subrange(0, e as int);
        assert(r@ =~= t.subrange(last_slash(t) + 1, t.len() as int));
    }
    r
}

pub proof fn lemma_last_slash_is(p: Seq<char>, k: int)
    requires
        -1 <= k < p.len(),
        k >= 0 ==> p[k] == '/',
        forall|j: int| k < j < p.len() ==> p[j] != '/',
    ensures
        last_slash(p) == k,
    decreases p.len(),
{
    if p.len() > 0 && p.last() != '/' {
        lemma_last_slash_is(p.drop_last(), k);
    }
}

/// Every entry of `names` whose name occurs more than once, in order.
pub fn duplicate_names(names: &Vec<String>) -> (r: Vec<String>)
    ensures
        views(r@) == duplicates_of(views(names@)),
{
    let ghost all = views(names@);
    let mut dups: Vec<String> = Vec::new();
    let mut i: usize = 0;
    while i < names.len()
        invariant
            i <= names@.len(),
            all == views(names@),
            views(dups@) == shared_upto(all, i as int),
        decreases names@.len() - i,
    {
        let mut seen = false;
        let mut j: usize = 0;
        while j < names.len()
            invariant
                i < names@.len(),
                j <= names@.len(),
                all == views(names@),
                seen <==> exists|k: int| 0 <= k < j && k != i && all[k] == all[i as int],
            decreases names@.len() - j,
        {
            proof {
                assert(all[j as int] == names@[j as int]@);
                assert(all[i as int] == names@[i as int]@);
            }
            if j != i && names[j] == names[i] {
                seen = true;
            }
            j = j + 1;
        }
        proof {
            if is_shared(all, i as int) {
                let k = choose|k: int| 0 <= k < all.len() && k != i && all[k] == all[i as int];
                assert(seen);
            }
        }
        if seen {
            dups.push(names[i].clone());
            proof {
                assert(views(dups@) =~= views(dups@.drop_last()).push(all[i as int]));
            }
        }
        i = i + 1;
    }
    dups
}

proof fn lemma_shared_upto_contains(names: Seq<Seq<char>>, k: int, i: int)
    requires
        0 <= i < k <= names.len(),
        is_shared(names, i),
    ensures
        shared_upto(names, k).contains(names[i]),
        shared_upto(names, k).len() >= 1,
    decreases k,
{
    if i == k - 1 {
        let d = shared_upto(names, k);
        assert(d[d.len() - 1] == names[i]);
    } else {
        lemma_shared_upto_contains(names, k - 1, i);
        let d0 = shared_upto(names, k - 1);
        let m = choose|m: int| 0 <= m < d0.len() && d0[m] == names[i];
        let d = shared_upto(names, k);
        assert(d[m] == names[i]);
    }
}

proof fn lemma_shared_upto_len(names: Seq<Seq<char>>, k: int, i: int, j: int)
    requires
        0 <= i < j < k <= names.len(),
        is_shared(names, i),
        is_shared(names, j),
    ensures
        shared_upto(names, k).len() >= 2,
    decreases k,
{
    if j == k - 1 {
        lemma_shared_upto_contains(names, k - 1, i);
    } else {
        lemma_shared_upto_len(names, k - 1, i, j);
    }
}

/// Whenever two entries share a name, both are listed among the duplicates.
pub proof fn law_shared_name_is_reported(names: Seq<Seq<char>>, i: int, j: int)
    requires
        0 <= i < j < names.len(),
        names[i] == names[j],
    ensures
        duplicates_of(names).len() >= 2,
        duplicates_of(names).contains(names[j]),
{
    assert(is_shared(names, i));
    assert(is_shared(names, j));
    lemma_shared_upto_len(names, names.len() as int, i, j);
    lemma_shared_upto_contains(names, names.len() as int, j);
}

} // verus!
