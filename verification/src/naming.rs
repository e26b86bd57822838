//! Deterministic naming of remote enforcement objects.
//!
//! Every enforcement object this engine creates in the remote controller is
//! named by a fixed reserved prefix followed by the comma-joined list of
//! blocked app names. Creation, `sync` and `cleanup` all use this one rule,
//! so a remote object can be recognised as ours, and matched back to the
//! local record it belongs to, by its name alone.

use vstd::prelude::*;
use vstd::string::*;

verus! {

/// The reserved marker that starts the name of every remote object owned by
/// this engine.
pub open spec fn name_prefix() -> Seq<char> {
    "[PUC]"@
}

/// The comma-joined app list: `a, b, c` for apps `[a, b, c]`.
pub open spec fn joined_names(apps: Seq<Seq<char>>) -> Seq<char>
    decreases apps.len(),
{
    if apps.len() == 0 {
        Seq::empty()
    } else if apps.len() == 1 {
        apps[0]
    } else {
        joined_names(apps.drop_last()) + ", "@ + apps.last()
    }
}

/// The name a remote enforcement object derives from the app list it blocks:
/// the reserved prefix, a space, then the comma-joined app names.
pub open spec fn derived_name_spec(apps: Seq<Seq<char>>) -> Seq<char> {
    "[PUC] "@ + joined_names(apps)
}

/// Whether a remote object name starts with the reserved prefix, i.e. whether
/// the object claims to be owned by this engine.
pub open spec fn is_name_prefixed(name: Seq<char>) -> bool {
    name.len() >= name_prefix().len() && name.subrange(0, name_prefix().len() as int)
        == name_prefix()
}

/// Character-for-character string equality.
pub fn str_eq(a: &str, b: &str) -> (r: bool)
    ensures
        r == (a@ == b@),
{
    let a_len = a.unicode_len();
    let b_len = b.unicode_len();
    if a_len != b_len {
        return false;
    }
    let mut i: usize = 0;
    while i < a_len
        invariant
            i <= a_len,
            a_len == a@.len(),
            b_len == b@.len(),
            a_len == b_len,
            forall|j: int| 0 <= j < i ==> a@[j] == b@[j],
        decreases a_len - i,
    {
        if a.get_char(i) != b.get_char(i) {
            return false;
        }
        i = i + 1;
    }
    proof {
        assert(a@ =~= b@);
    }
    true
}

/// Whether `name` starts with the reserved prefix.
pub fn has_name_prefix(name: &str) -> (r: bool)
    ensures
        r == is_name_prefixed(name@),
{
    let prefix = "[PUC]";
    proof {
        reveal_strlit("[PUC]");
    }
    let p_len = prefix.unicode_len();
    let n_len = name.unicode_len();
    if n_len < p_len {
        return false;
    }
    let mut i: usize = 0;
    while i < p_len
        invariant
            i <= p_len,
            p_len == name_prefix().len(),
            n_len == name@.len(),
            p_len <= n_len,
            prefix@ == name_prefix(),
            forall|j: int| 0 <= j < i ==> name@[j] == name_prefix()[j],
        decreases p_len - i,
    {
        if name.get_char(i) != prefix.get_char(i) {
            proof {
                assert(name@.subrange(0, name_prefix().len() as int)[i as int] == name@[i as int]);
            }
            return false;
        }
        i = i + 1;
    }
    proof {
        assert(name@.subrange(0, name_prefix().len() as int) =~= name_prefix());
    }
    true
}

proof fn lemma_joined_step(apps: Seq<Seq<char>>, i: int)
    requires
        0 <= i < apps.len(),
    ensures
        i == 0 ==> joined_names(apps.take(1)) == apps[0],
        i > 0 ==> joined_names(apps.take(i + 1)) == joined_names(apps.take(i)) + ", "@ + apps[i],
{
    if i == 0 {
        assert(apps.take(1).len() == 1);
        assert(apps.take(1)[0] == apps[0]);
    } else {
        assert(apps.take(i + 1).drop_last() =~= apps.take(i));
        assert(apps.take(i + 1).last() == apps[i]);
    }
}

/// The name of the remote enforcement object for this app list: the reserved
/// prefix, a space, and the comma-joined app names.
pub fn derived_name(apps: &Vec<String>) -> (r: String)
    ensures
        r@ == derived_name_spec(apps.deep_view()),
{
    let mut s: String = "[PUC] ".to_owned();
    let ghost all = apps.deep_view();
    let mut i: usize = 0;
    while i < apps.len()
        invariant
            i <= apps.len(),
            all == apps.deep_view(),
            all.len() == apps@.len(),
            s@ == "[PUC] "@ + joined_names(all.take(i as int)),
        decreases apps.len() - i,
    {
        if i > 0 {
            s.append(", ");
        }
        s.append(apps[i].as_str());
        proof {
            lemma_joined_step(all, i as int);
            assert(all[i as int] == apps@[i as int]@);
            if i == 0 {
                assert(joined_names(all.take(0)) =~= Seq::<char>::empty());
                assert(s@ =~= "[PUC] "@ + joined_names(all.take(1)));
            } else {
                assert(s@ =~= "[PUC] "@ + joined_names(all.take(i + 1)));
            }
        }
        i = i + 1;
    }
    proof {
        assert(all.take(apps@.len() as int) =~= all);
    }
    s
}

} // verus!
