//! Building the catalog: what is admitted, once per name, in order of name.

use crate::application::{Application, ApplicationView};
use crate::order::{
    law_precedes_asymmetric, law_precedes_irreflexive, law_precedes_total, law_precedes_transitive,
    precedes, text_precedes,
};
use crate::text::{char_is_whitespace, is_blank, is_whitespace, to_chars};
use vstd::prelude::*;

verus! {

/// Which records the catalog admits.
#[derive(Clone, Copy, Debug, PartialEq, Eq, Structural)]
pub enum InclusionPolicy {
    /// Every record with a name, whether or not it has an icon or a command.
    Permissive,
    /// Only records with a name that shows, an icon and a command.
    Strict,
}

/// Whether the catalog admits the record `a` under `policy`.
pub open spec fn admits(policy: InclusionPolicy, a: ApplicationView) -> bool {
    match policy {
        InclusionPolicy::Permissive => a.name.len() > 0,
        InclusionPolicy::Strict => !is_blank(a.name) && a.icon.len() > 0 && a.command.len() > 0,
    }
}

/// The mathematical content of a list of records.
pub open spec fn application_views(apps: Seq<Application>) -> Seq<ApplicationView> {
    Seq::new(apps.len(), |i: int| apps[i]@)
}

/// Whether the names of `catalog` ascend strictly, so that no two are equal.
pub open spec fn ascends_by_name(catalog: Seq<ApplicationView>) -> bool {
    forall|i: int, j: int|
        0 <= i < j < catalog.len() ==> precedes(
            (#[trigger] catalog[i]).name,
            (#[trigger] catalog[j]).name,
        )
}

/// Whether the record at index `i` of `apps` is admitted and is the first
/// admitted record of its name.
pub open spec fn is_first_admitted(
    apps: Seq<ApplicationView>,
    policy: InclusionPolicy,
    i: int,
) -> bool {
    &&& 0 <= i < apps.len()
    &&& admits(policy, apps[i])
    &&& forall|j: int|
        0 <= j < i && admits(policy, #[trigger] apps[j]) ==> apps[j].name != apps[i].name
}

/// Whether `entry` is, among `apps`, the first admitted record of its name.
pub open spec fn is_first_of_its_name(
    apps: Seq<ApplicationView>,
    policy: InclusionPolicy,
    entry: ApplicationView,
) -> bool {
    exists|i: int| #[trigger] is_first_admitted(apps, policy, i) && apps[i] == entry
}

/// Whether `catalog` lists a record of the given name.
pub open spec fn lists_name(catalog: Seq<ApplicationView>, name: Seq<char>) -> bool {
    exists|k: int| 0 <= k < catalog.len() && (#[trigger] catalog[k]).name == name
}

/// Whether `catalog` is the catalog of `apps` under `policy`: its names
/// ascend, each of its records is the first admitted record of its name among
/// `apps`, and it lists the name of every admitted record.
pub open spec fn is_catalog_of(
    catalog: Seq<ApplicationView>,
    apps: Seq<ApplicationView>,
    policy: InclusionPolicy,
) -> bool {
    &&& ascends_by_name(catalog)
    &&& forall|k: int|
        0 <= k < catalog.len() ==> is_first_of_its_name(apps, policy, #[trigger] catalog[k])
    &&& forall|i: int|
        0 <= i < apps.len() && admits(policy, #[trigger] apps[i]) ==> lists_name(
            catalog,
            apps[i].name,
        )
}

/// In a catalog no two records share a name, and no record lacks one.
pub proof fn law_catalog_names_unique(
    catalog: Seq<ApplicationView>,
    apps: Seq<ApplicationView>,
    policy: InclusionPolicy,
)
    requires
        is_catalog_of(catalog, apps, policy),
    ensures
        forall|i: int, j: int|
            0 <= i < catalog.len() && 0 <= j < catalog.len() && i != j ==> (
            #[trigger] catalog[i]).name != (#[trigger] catalog[j]).name,
        forall|k: int| 0 <= k < catalog.len() ==> (#[trigger] catalog[k]).name.len() > 0,
        forall|k: int| 0 <= k < catalog.len() ==> admits(policy, #[trigger] catalog[k]),
{
    assert forall|i: int, j: int|
        0 <= i < catalog.len() && 0 <= j < catalog.len() && i != j implies (
    #[trigger] catalog[i]).name != (#[trigger] catalog[j]).name by {
        law_precedes_irreflexive(catalog[i].name);
    }
    assert forall|k: int| 0 <= k < catalog.len() implies admits(policy, #[trigger] catalog[k])
        && catalog[k].name.len() > 0 by {
        assert(is_first_of_its_name(apps, policy, catalog[k]));
        let i = choose|i: int| #[trigger]
            is_first_admitted(apps, policy, i) && apps[i] == catalog[k];
        if policy == InclusionPolicy::Strict && catalog[k].name.len() == 0 {
            assert(is_blank(catalog[k].name));
        }
    }
}

/// Where nothing was found, nothing is listed: the catalog of no records is
/// empty.
pub proof fn law_catalog_of_nothing_is_empty(
    catalog: Seq<ApplicationView>,
    policy: InclusionPolicy,
)
    requires
        is_catalog_of(catalog, Seq::empty(), policy),
    ensures
        catalog == Seq::<ApplicationView>::empty(),
{
    if catalog.len() > 0 {
        assert(is_first_of_its_name(Seq::empty(), policy, catalog[0]));
    }
    assert(catalog =~= Seq::<ApplicationView>::empty());
}

/// Two lists whose names ascend and that hold the same records are the same
/// list.
proof fn lemma_ascending_lists_equal(c1: Seq<ApplicationView>, c2: Seq<ApplicationView>)
    requires
        ascends_by_name(c1),
        ascends_by_name(c2),
        forall|k: int| 0 <= k < c1.len() ==> c2.contains(#[trigger] c1[k]),
        forall|k: int| 0 <= k < c2.len() ==> c1.contains(#[trigger] c2[k]),
    ensures
        c1 == c2,
    decreases c1.len(),
{
    if c1.len() == 0 {
        if c2.len() > 0 {
            assert(c1.contains(c2[0]));
        }
        assert(c1 =~= c2);
    } else {
        let last1 = c1.len() - 1;
        assert(c2.contains(c1[last1]));
        let last2 = c2.len() - 1;
        let j = choose|j: int| 0 <= j < c2.len() && c2[j] == c1[last1];
        assert(c1.contains(c2[last2]));
        let k = choose|k: int| 0 <= k < c1.len() && c1[k] == c2[last2];
        if j != last2 {
            // c1[last1] comes before c2[last2] in c2, yet nothing in c1
            // comes after c1[last1].
            assert(precedes(c2[j].name, c2[last2].name));
            law_precedes_irreflexive(c1[last1].name);
            if k != last1 {
                assert(precedes(c1[k].name, c1[last1].name));
                law_precedes_asymmetric(c1[k].name, c1[last1].name);
            }
        }
        assert(c2[last2] == c1[last1]);
        let d1 = c1.drop_last();
        let d2 = c2.drop_last();
        assert forall|i: int, j: int| 0 <= i < j < d1.len() implies precedes(
            (#[trigger] d1[i]).name,
            (#[trigger] d1[j]).name,
        ) by {
            assert(d1[i] == c1[i] && d1[j] == c1[j]);
        }
        assert forall|i: int, j: int| 0 <= i < j < d2.len() implies precedes(
            (#[trigger] d2[i]).name,
            (#[trigger] d2[j]).name,
        ) by {
            assert(d2[i] == c2[i] && d2[j] == c2[j]);
        }
        assert forall|i: int| 0 <= i < d1.len() implies d2.contains(#[trigger] d1[i]) by {
            assert(d1[i] == c1[i]);
            assert(c2.contains(c1[i]));
            let m = choose|m: int| 0 <= m < c2.len() && c2[m] == c1[i];
            assert(precedes(c1[i].name, c1[last1].name));
            law_precedes_irreflexive(c1[i].name);
            assert(m != last2);
            assert(d2[m] == c2[m]);
        }
        assert forall|i: int| 0 <= i < d2.len() implies d1.contains(#[trigger] d2[i]) by {
            assert(d2[i] == c2[i]);
            assert(c1.contains(c2[i]));
            let m = choose|m: int| 0 <= m < c1.len() && c1[m] == c2[i];
            assert(precedes(c2[i].name, c2[last2].name));
            law_precedes_irreflexive(c2[i].name);
            assert(m != last1);
            assert(d1[m] == c1[m]);
        }
        lemma_ascending_lists_equal(d1, d2);
        assert(c1 =~= d1.push(c1[last1]));
        assert(c2 =~= d2.push(c2[last2]));
    }
}

/// Every record of one catalog of `apps` is a record of any other.
proof fn lemma_catalog_members_shared(
    c1: Seq<ApplicationView>,
    c2: Seq<ApplicationView>,
    apps: Seq<ApplicationView>,
    policy: InclusionPolicy,
)
    requires
        is_catalog_of(c1, apps, policy),
        is_catalog_of(c2, apps, policy),
    ensures
        forall|k: int| 0 <= k < c1.len() ==> c2.contains(#[trigger] c1[k]),
{
    assert forall|k: int| 0 <= k < c1.len() implies c2.contains(#[trigger] c1[k]) by {
        assert(is_first_of_its_name(apps, policy, c1[k]));
        let i = choose|i: int| #[trigger]
            is_first_admitted(apps, policy, i) && apps[i] == c1[k];
        assert(lists_name(c2, apps[i].name));
        let m = choose|m: int| 0 <= m < c2.len() && (#[trigger] c2[m]).name == apps[i].name;
        assert(is_first_of_its_name(apps, policy, c2[m]));
        let i2 = choose|i2: int| #[trigger]
            is_first_admitted(apps, policy, i2) && apps[i2] == c2[m];
        assert(i == i2);
    }
}

/// The catalog is determined: a list of records has one catalog under a
/// policy and no other.
pub proof fn law_catalog_is_unique(
    c1: Seq<ApplicationView>,
    c2: Seq<ApplicationView>,
    apps: Seq<ApplicationView>,
    policy: InclusionPolicy,
)
    requires
        is_catalog_of(c1, apps, policy),
        is_catalog_of(c2, apps, policy),
    ensures
        c1 == c2,
{
    lemma_catalog_members_shared(c1, c2, apps, policy);
    lemma_catalog_members_shared(c2, c1, apps, policy);
    lemma_ascending_lists_equal(c1, c2);
}

/// Decides [`is_blank`].
pub fn text_is_blank(s: &str) -> (r: bool)
    ensures
        r == is_blank(s@),
{
    let chars = to_chars(s);
    let mut i: usize = 0;
    while i < chars.len()
        invariant
            chars@ == s@,
            i <= chars.len(),
            forall|j: int| 0 <= j < i ==> is_whitespace(#[trigger] chars@[j]),
        decreases chars.len() - i,
    {
        if !char_is_whitespace(chars[i]) {
            return false;
        }
        i += 1;
    }
    true
}

/// Decides [`admits`].
pub fn is_admitted(app: &Application, policy: InclusionPolicy) -> (r: bool)
    ensures
        r == admits(policy, app@),
{
    match policy {
        InclusionPolicy::Permissive => !app.name.as_str().is_empty(),
        InclusionPolicy::Strict => !text_is_blank(app.name.as_str())
            && !app.icon.as_str().is_empty() && !app.command.as_str().is_empty(),
    }
}

/// A record that is not admitted leaves the catalog as it is.
proof fn lemma_catalog_skips_rejected(
    catalog: Seq<ApplicationView>,
    apps: Seq<ApplicationView>,
    policy: InclusionPolicy,
    a: ApplicationView,
)
    requires
        is_catalog_of(catalog, apps, policy),
        !admits(policy, a),
    ensures
        is_catalog_of(catalog, apps.push(a), policy),
{
    let more = apps.push(a);
    assert forall|k: int| 0 <= k < catalog.len() implies is_first_of_its_name(
        more,
        policy,
        #[trigger] catalog[k],
    ) by {
        let i = choose|i: int| #[trigger]
            is_first_admitted(apps, policy, i) && apps[i] == catalog[k];
        lemma_first_admitted_extends(apps, policy, i, a);
    }
    assert forall|i: int| 0 <= i < more.len() && admits(policy, #[trigger] more[i]) implies lists_name(
        catalog,
        more[i].name,
    ) by {
        assert(more[i] == apps[i]);
    }
}

/// The first admitted record of a name stays so when a record is appended.
proof fn lemma_first_admitted_extends(
    apps: Seq<ApplicationView>,
    policy: InclusionPolicy,
    i: int,
    a: ApplicationView,
)
    requires
        is_first_admitted(apps, policy, i),
    ensures
        is_first_admitted(apps.push(a), policy, i),
        apps.push(a)[i] == apps[i],
{
    let more = apps.push(a);
    assert forall|j: int| 0 <= j < i && admits(policy, #[trigger] more[j]) implies more[j].name
        != more[i].name by {
        assert(more[j] == apps[j]);
    }
}

/// A record whose name is listed already leaves the catalog as it is.
proof fn lemma_catalog_keeps_first(
    catalog: Seq<ApplicationView>,
    apps: Seq<ApplicationView>,
    policy: InclusionPolicy,
    a: ApplicationView,
    at: int,
)
    requires
        is_catalog_of(catalog, apps, policy),
        0 <= at < catalog.len(),
        catalog[at].name == a.name,
    ensures
        is_catalog_of(catalog, apps.push(a), policy),
{
    let more = apps.push(a);
    assert forall|k: int| 0 <= k < catalog.len() implies is_first_of_its_name(
        more,
        policy,
        #[trigger] catalog[k],
    ) by {
        let i = choose|i: int| #[trigger]
            is_first_admitted(apps, policy, i) && apps[i] == catalog[k];
        lemma_first_admitted_extends(apps, policy, i, a);
    }
    assert forall|i: int| 0 <= i < more.len() && admits(policy, #[trigger] more[i]) implies lists_name(
        catalog,
        more[i].name,
    ) by {
        if i < apps.len() {
            assert(more[i] == apps[i]);
        } else {
            assert(catalog[at].name == more[i].name);
        }
    }
}

/// A record whose name is not listed yet enters the catalog at the place that
/// keeps the names ascending.
proof fn lemma_catalog_takes_new(
    catalog: Seq<ApplicationView>,
    apps: Seq<ApplicationView>,
    policy: InclusionPolicy,
    a: ApplicationView,
    at: int,
)
    requires
        is_catalog_of(catalog, apps, policy),
        admits(policy, a),
        0 <= at <= catalog.len(),
        forall|q: int| 0 <= q < at ==> precedes((#[trigger] catalog[q]).name, a.name),
        at < catalog.len() ==> precedes(a.name, catalog[at].name),
    ensures
        is_catalog_of(catalog.insert(at, a), apps.push(a), policy),
{
    let more = apps.push(a);
    let grown = catalog.insert(at, a);
    // The new name precedes everything from `at` on.
    assert forall|q: int| at <= q < catalog.len() implies precedes(
        a.name,
        (#[trigger] catalog[q]).name,
    ) by {
        if q > at {
            law_precedes_transitive(a.name, catalog[at].name, catalog[q].name);
        }
    }
    // Hence no listed record bears the new name.
    assert forall|q: int| 0 <= q < catalog.len() implies (#[trigger] catalog[q]).name
        != a.name by {
        law_precedes_irreflexive(a.name);
    }
    assert forall|i: int, j: int| 0 <= i < j < grown.len() implies precedes(
        (#[trigger] grown[i]).name,
        (#[trigger] grown[j]).name,
    ) by {
        let from_i = if i < at {
            i
        } else {
            i - 1
        };
        let from_j = if j < at {
            j
        } else {
            j - 1
        };
        if i != at && j != at {
            assert(grown[i] == catalog[from_i]);
            assert(grown[j] == catalog[from_j]);
        } else if i == at {
            assert(grown[j] == catalog[from_j]);
        } else {
            assert(grown[i] == catalog[from_i]);
        }
    }
    assert forall|k: int| 0 <= k < grown.len() implies is_first_of_its_name(
        more,
        policy,
        #[trigger] grown[k],
    ) by {
        if k == at {
            let last = apps.len() as int;
            assert forall|j: int| 0 <= j < last && admits(policy, #[trigger] more[j]) implies more[j].name
                != more[last].name by {
                assert(more[j] == apps[j]);
                assert(lists_name(catalog, apps[j].name));
            }
            assert(is_first_admitted(more, policy, last));
            assert(more[last] == grown[k]);
        } else {
            let from_k = if k < at {
                k
            } else {
                k - 1
            };
            assert(grown[k] == catalog[from_k]);
            let i = choose|i: int| #[trigger]
                is_first_admitted(apps, policy, i) && apps[i] == catalog[from_k];
            lemma_first_admitted_extends(apps, policy, i, a);
        }
    }
    assert forall|i: int| 0 <= i < more.len() && admits(policy, #[trigger] more[i]) implies lists_name(
        grown,
        more[i].name,
    ) by {
        if i < apps.len() {
            assert(more[i] == apps[i]);
            let k = choose|k: int|
                0 <= k < catalog.len() && (#[trigger] catalog[k]).name == apps[i].name;
            let to_k = if k < at {
                k
            } else {
                k + 1
            };
            assert(grown[to_k] == catalog[k]);
        } else {
            assert(grown[at].name == more[i].name);
        }
    }
}

/// The place of `name` among the ascending names of `catalog`: the index of
/// the first record that does not come before it.
fn place_of(catalog: &Vec<Application>, name: &Vec<char>) -> (at: usize)
    ensures
        at <= catalog.len(),
        forall|q: int| 0 <= q < at ==> precedes((#[trigger] catalog@[q])@.name, name@),
        at < catalog.len() ==> !precedes(catalog@[at as int]@.name, name@),
{
    let mut at: usize = 0;
    while at < catalog.len()
        invariant
            at <= catalog.len(),
            forall|q: int| 0 <= q < at ==> precedes((#[trigger] catalog@[q])@.name, name@),
        decreases catalog.len() - at,
    {
        let listed = to_chars(catalog[at].name.as_str());
        if !text_precedes(&listed, name) {
            return at;
        }
        at += 1;
    }
    at
}

/// Builds the catalog of `apps`: the admitted records, the first of each
/// name, in ascending order of name.
pub fn build_catalog(apps: &Vec<Application>, policy: InclusionPolicy) -> (catalog: Vec<
    Application,
>)
    ensures
        is_catalog_of(application_views(catalog@), application_views(apps@), policy),
        ascends_by_name(application_views(catalog@)),
        forall|i: int, j: int|
            0 <= i < catalog.len() && 0 <= j < catalog.len() && i != j ==> (
            #[trigger] catalog@[i])@.name != (#[trigger] catalog@[j])@.name,
        forall|k: int| 0 <= k < catalog.len() ==> (#[trigger] catalog@[k])@.name.len() > 0,
{
    let mut catalog: Vec<Application> = Vec::new();
    let ghost all = application_views(apps@);
    let mut i: usize = 0;
    assert(all.take(0) =~= Seq::<ApplicationView>::empty());
    while i < apps.len()
        invariant
            i <= apps.len(),
            all == application_views(apps@),
            is_catalog_of(application_views(catalog@), all.take(i as int), policy),
        decreases apps.len() - i,
    {
        let app = &apps[i];
        let ghost seen = all.take(i as int);
        let ghost listed = application_views(catalog@);
        proof {
            assert(all.take(i + 1) =~= seen.push(app@));
        }
        if is_admitted(app, policy) {
            let name = to_chars(app.name.as_str());
            let at: usize = place_of(&catalog, &name);
            let known = at < catalog.len() && catalog[at].name == app.name;
            if known {
                proof {
                    lemma_catalog_keeps_first(listed, seen, policy, app@, at as int);
                }
            } else {
                proof {
                    assert forall|q: int| 0 <= q < at implies precedes(
                        (#[trigger] listed[q]).name,
                        app@.name,
                    ) by {
                        assert(listed[q] == catalog@[q]@);
                    }
                    if at < catalog.len() {
                        assert(listed[at as int] == catalog@[at as int]@);
                        law_precedes_total(listed[at as int].name, app@.name);
                    }
                    lemma_catalog_takes_new(listed, seen, policy, app@, at as int);
                }
                catalog.insert(at, app.duplicate());
                proof {
                    assert(application_views(catalog@) =~= listed.insert(at as int, app@));
                }
            }
        } else {
            proof {
                lemma_catalog_skips_rejected(listed, seen, policy, app@);
            }
        }
        i += 1;
    }
    proof {
        assert(all.take(apps.len() as int) =~= all);
        let listed = application_views(catalog@);
        law_catalog_names_unique(listed, all, policy);
        assert forall|i: int, j: int|
            0 <= i < catalog.len() && 0 <= j < catalog.len() && i != j implies (
        #[trigger] catalog@[i])@.name != (#[trigger] catalog@[j])@.name by {
            assert(listed[i] == catalog@[i]@ && listed[j] == catalog@[j]@);
        }
        assert forall|k: int| 0 <= k < catalog.len() implies (#[trigger] catalog@[k])@.name.len()
            > 0 by {
            assert(listed[k] == catalog@[k]@);
        }
    }
    catalog
}

} // verus!
