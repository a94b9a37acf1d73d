//! Releases as the release feed describes them, and picking an asset by name.
use vstd::prelude::*;

verus! {

/// A downloadable file of a release.
#[derive(Debug, Clone, PartialEq, Eq)]
pub struct Asset {
    pub name: String,
    pub url: String,
}

/// The latest release of a project: its tag and its assets, in feed order.
#[derive(Debug, Clone, PartialEq, Eq)]
pub struct Release {
    pub tag: String,
    pub assets: Vec<Asset>,
}

/// Whether two texts are the same character for character.
pub fn text_eq(a: &str, b: &str) -> (r: bool)
    ensures
        r == (a@ == b@),
{
    let n = a.unicode_len();
    if n != b.unicode_len() {
        return false;
    }
    let mut i: usize = 0;
    while i < n
        invariant
            n == a@.len(),
            n == b@.len(),
            i <= n,
            forall|t: int| 0 <= t < i ==> a@[t] == b@[t],
        decreases n - i,
    {
        if a.get_char(i) != b.get_char(i) {
            return false;
        }
        i = i + 1;
    }
    assert(a@ =~= b@);
    true
}

/// The index of the first asset whose name is `name`, if any.
pub open spec fn first_named(assets: Seq<Asset>, name: Seq<char>) -> Option<int> {
    if exists|i: int| 0 <= i < assets.len() && (#[trigger] assets[i]).name@ == name {
        Some(choose|i: int|
            0 <= i < assets.len() && assets[i].name@ == name && forall|j: int|
                0 <= j < i ==> (#[trigger] assets[j]).name@ != name)
    } else {
        None
    }
}

/// Finds the first asset named exactly `name`.
pub fn find_asset(assets: &Vec<Asset>, name: &str) -> (r: Option<usize>)
    ensures
        match r {
            Some(i) => i < assets@.len() && assets@[i as int].name@ == name@ && forall|j: int|
                0 <= j < i ==> (#[trigger] assets@[j]).name@ != name@,
            None => forall|j: int| 0 <= j < assets@.len() ==> (#[trigger] assets@[j]).name@ != name@,
        },
        r is Some <==> first_named(assets@, name@) is Some,
        r is Some ==> first_named(assets@, name@) == Some(r->0 as int),
{
    let mut i: usize = 0;
    while i < assets.len()
        invariant
            i <= assets@.len(),
            forall|j: int| 0 <= j < i ==> (#[trigger] assets@[j]).name@ != name@,
        decreases assets@.len() - i,
    {
        if text_eq(assets[i].name.as_str(), name) {
            proof {
                let k = choose|k: int|
                    0 <= k < assets@.len() && assets@[k].name@ == name@ && forall|j: int|
                        0 <= j < k ==> (#[trigger] assets@[j]).name@ != name@;
                assert(k == i as int) by {
                    if k < i {
                    } else if k > i {
                        assert(assets@[i as int].name@ != name@);
                    }
                }
            }
            return Some(i);
        }
        i = i + 1;
    }
    None
}

} // verus!
