//! Unity installation management: the recorded installations, suitability
//! selection for a target editor version, the Unity Hub path decision, and
//! the synchronization plan against the Hub's installation list.
//!
//! Discovery itself (running editors, databases, the filesystem) happens
//! outside; this module decides, over plain values, what those collaborators
//! should do.

use vstd::prelude::*;
use crate::package::{names_contain, spec_names_contain};
use crate::version::{spec_parse_unity_version, UnityVersion};

verus! {

/// One recorded Unity installation: its path, the version string the
/// record carries (if any), and whether the Unity Hub reported it.
#[derive(Debug, PartialEq, Eq)]
pub struct UnityInstallation {
    pub path: String,
    pub version_string: Option<String>,
    pub loaded_from_hub: bool,
}

impl Clone for UnityInstallation {
    fn clone(&self) -> (res: Self)
        ensures
            res == *self,
    {
        UnityInstallation {
            path: self.path.clone(),
            version_string: match &self.version_string {
                Some(s) => Some(s.clone()),
                None => None,
            },
            loaded_from_hub: self.loaded_from_hub,
        }
    }
}

impl UnityInstallation {
    /// The parsed version of this installation, if its record carries a
    /// well-formed version string.
    pub open spec fn spec_version(self) -> Option<UnityVersion> {
        match self.version_string {
            Some(s) => spec_parse_unity_version(s@),
            None => None,
        }
    }

    pub open spec fn spec_path(self) -> Seq<char> {
        self.path@
    }

    pub fn new(path: String, version_string: Option<String>, loaded_from_hub: bool) -> (r:
        UnityInstallation)
        ensures
            r == (UnityInstallation { path, version_string, loaded_from_hub }),
    {
        UnityInstallation { path, version_string, loaded_from_hub }
    }

    pub fn path(&self) -> (r: &String)
        ensures
            r == &self.path,
    {
        &self.path
    }

    pub fn version(&self) -> (r: Option<UnityVersion>)
        ensures
            r == self.spec_version(),
    {
        match &self.version_string {
            Some(s) => UnityVersion::parse(s.as_str()),
            None => None,
        }
    }

    pub fn loaded_from_hub(&self) -> (r: bool)
        ensures
            r == self.loaded_from_hub,
    {
        self.loaded_from_hub
    }
}

/// The installation-selection fold: walks the installations keeping the
/// best match in each band (same revision, same minor, same major), and
/// stops at the first full equality. On no full match, the last
/// installation of the tightest non-empty band wins.
pub open spec fn spec_select_suitable(
    insts: Seq<UnityInstallation>,
    expected: UnityVersion,
    rev: Option<UnityInstallation>,
    minor: Option<UnityInstallation>,
    major: Option<UnityInstallation>,
) -> Option<UnityInstallation>
    decreases insts.len(),
{
    if insts.len() == 0 {
        if rev is Some {
            rev
        } else if minor is Some {
            minor
        } else {
            major
        }
    } else {
        let h = insts[0];
        match h.spec_version() {
            None => spec_select_suitable(insts.skip(1), expected, rev, minor, major),
            Some(v) => if v == expected {
                Some(h)
            } else if v.major == expected.major {
                if v.minor == expected.minor {
                    if v.revision == expected.revision {
                        spec_select_suitable(insts.skip(1), expected, Some(h), minor, major)
                    } else {
                        spec_select_suitable(insts.skip(1), expected, rev, Some(h), major)
                    }
                } else {
                    spec_select_suitable(insts.skip(1), expected, rev, minor, Some(h))
                }
            } else {
                spec_select_suitable(insts.skip(1), expected, rev, minor, major)
            },
        }
    }
}

/// The recorded environment: the known Unity installations.
#[derive(Debug, PartialEq, Eq)]
pub struct Environment {
    pub installations: Vec<UnityInstallation>,
}

impl Environment {
    pub fn new(installations: Vec<UnityInstallation>) -> (r: Environment)
        ensures
            r.installations@ == installations@,
    {
        Environment { installations }
    }

    /// All recorded installations, as owned values.
    pub fn get_unity_installations(&self) -> (r: Vec<UnityInstallation>)
        ensures
            r@ == self.installations@,
    {
        let len = self.installations.len();
        let mut out: Vec<UnityInstallation> = Vec::new();
        let mut i: usize = 0;
        while i < len
            invariant
                len == self.installations@.len(),
                i <= len,
                out@ =~= self.installations@.take(i as int),
            decreases len - i,
        {
            proof {
                assert(self.installations@.take(i as int + 1) =~= self.installations@.take(
                    i as int,
                ).push(self.installations@[i as int]));
            }
            let c = self.installations[i].clone();
            out.push(c);
            i = i + 1;
        }
        proof {
            assert(self.installations@.take(len as int) =~= self.installations@);
        }
        out
    }

    /// Is some installation recorded at exactly this path?
    pub fn has_installation_at(&self, path: &String) -> (r: bool)
        ensures
            r == exists|i: int|
                0 <= i < self.installations@.len() && self.installations@[i].spec_path()
                    == path@,
    {
        let len = self.installations.len();
        let mut i: usize = 0;
        while i < len
            invariant
                len == self.installations@.len(),
                i <= len,
                forall|j: int| 0 <= j < i ==> self.installations@[j].spec_path() != path@,
            decreases len - i,
        {
            if self.installations[i].path.eq(path) {
                return true;
            }
            i = i + 1;
        }
        false
    }

    /// The most suitable installation for the expected editor version:
    /// an exact match if one exists (the first), otherwise the best of
    /// the revision-, minor- and major-match bands, as the selection fold
    /// states it.
    #[verifier::rlimit(50)]
    pub fn find_most_suitable_unity(&self, expected: UnityVersion) -> (r: Option<
        UnityInstallation,
    >)
        ensures
            r == spec_select_suitable(
                self.installations@,
                expected,
                None::<UnityInstallation>,
                None::<UnityInstallation>,
                None::<UnityInstallation>,
            ),
    {
        let insts = &self.installations;
        let len = insts.len();
        let mut revision_match: Option<UnityInstallation> = None;
        let mut minor_match: Option<UnityInstallation> = None;
        let mut major_match: Option<UnityInstallation> = None;
        let mut i: usize = 0;
        proof {
            assert(insts@.skip(0) =~= insts@);
        }
        while i < len
            invariant
                insts@ == self.installations@,
                len == insts@.len(),
                i <= len,
                spec_select_suitable(
                    insts@.skip(i as int),
                    expected,
                    revision_match,
                    minor_match,
                    major_match,
                ) == spec_select_suitable(
                    insts@,
                    expected,
                    None::<UnityInstallation>,
                    None::<UnityInstallation>,
                    None::<UnityInstallation>,
                ),
            decreases len - i,
        {
            proof {
                assert(insts@.skip(i as int)[0] == insts@[i as int]);
                assert(insts@.skip(i as int).skip(1) =~= insts@.skip(i as int + 1));
            }
            let unity = &insts[i];
            let ghost h = insts@[i as int];
            match unity.version() {
                Some(version) => {
                    if version == expected {
                        let picked = unity.clone();
                        proof {
                            assert(h.spec_version() == Some(version));
                            assert(spec_select_suitable(
                                insts@.skip(i as int),
                                expected,
                                revision_match,
                                minor_match,
                                major_match,
                            ) == Some(h));
                            assert(picked == h);
                            assert(Some(picked) == spec_select_suitable(
                                insts@,
                                expected,
                                None::<UnityInstallation>,
                                None::<UnityInstallation>,
                                None::<UnityInstallation>,
                            ));
                            assert(insts@ == self.installations@);
                        }
                        return Some(picked);
                    }
                    if version.major == expected.major {
                        if version.minor == expected.minor {
                            if version.revision == expected.revision {
                                revision_match = Some(unity.clone());
                            } else {
                                minor_match = Some(unity.clone());
                            }
                        } else {
                            major_match = Some(unity.clone());
                        }
                    }
                },
                None => {},
            }
            proof {
                assert(spec_select_suitable(
                    insts@.skip(i as int + 1),
                    expected,
                    revision_match,
                    minor_match,
                    major_match,
                ) == spec_select_suitable(
                    insts@,
                    expected,
                    None::<UnityInstallation>,
                    None::<UnityInstallation>,
                    None::<UnityInstallation>,
                ));
            }
            i = i + 1;
        }
        proof {
            assert(insts@.skip(len as int) =~= Seq::<UnityInstallation>::empty());
        }
        if matches!(revision_match, Some(_)) {
            revision_match
        } else if matches!(minor_match, Some(_)) {
            minor_match
        } else {
            major_match
        }
    }
}

/// The Unity Hub executable to use: the configured path when it is
/// non-empty and exists as a file; otherwise the first default path that
/// exists. `true` in the result means the choice came from the defaults
/// and should be written back to the settings.
pub fn choose_unity_hub(
    configured: &String,
    configured_is_file: bool,
    defaults: &Vec<String>,
    default_is_file: &Vec<bool>,
) -> (r: Option<(String, bool)>)
    requires
        defaults@.len() == default_is_file@.len(),
    ensures
        configured@.len() > 0 && configured_is_file ==> r == Some((*configured, false)),
        !(configured@.len() > 0 && configured_is_file) ==> match r {
            Some(p) => p.1 && exists|i: int|
                0 <= i < defaults@.len() && default_is_file@[i] && defaults@[i] == p.0 && forall|
                    j: int,
                |
                    0 <= j < i ==> !default_is_file@[j],
            None => forall|i: int| 0 <= i < defaults@.len() ==> !default_is_file@[i],
        },
{
    if !configured.as_str().is_empty() && configured_is_file {
        return Some((configured.clone(), false));
    }
    let len = defaults.len();
    let mut i: usize = 0;
    while i < len
        invariant
            !(configured@.len() > 0 && configured_is_file),
            len == defaults@.len(),
            len == default_is_file@.len(),
            i <= len,
            forall|j: int| 0 <= j < i ==> !default_is_file@[j],
        decreases len - i,
    {
        if default_is_file[i] {
            return Some((defaults[i].clone(), true));
        }
        i = i + 1;
    }
    None
}

/// Every staged removal names a recorded installation whose editor is
/// gone.
pub open spec fn spec_removals_sound(
    removals: Seq<String>,
    installations: Seq<UnityInstallation>,
    exists_on_disk: Seq<bool>,
) -> bool {
    forall|a: int|
        0 <= a < removals.len() ==> exists|i2: int|
            0 <= i2 < installations.len() && installations[i2].spec_path()
                == #[trigger] removals[a]@ && !exists_on_disk[i2]
}

/// Every recorded installation whose editor is gone is staged for
/// removal.
pub open spec fn spec_removals_complete(
    removals: Seq<String>,
    installations: Seq<UnityInstallation>,
    exists_on_disk: Seq<bool>,
) -> bool {
    forall|i2: int|
        0 <= i2 < installations.len() && !exists_on_disk[i2] ==> spec_names_contain(
            removals,
            #[trigger] installations[i2].spec_path(),
        )
}

/// Every staged flag correction belongs to a surviving record and
/// carries the flag value the Hub list dictates.
pub open spec fn spec_updates_sound(
    updates: Seq<HubFlagUpdate>,
    installations: Seq<UnityInstallation>,
    exists_on_disk: Seq<bool>,
    hub: Seq<String>,
) -> bool {
    forall|a: int|
        0 <= a < updates.len() ==> exists|i2: int|
            0 <= i2 < installations.len() && installations[i2].spec_path()
                == (#[trigger] updates[a]).path@ && exists_on_disk[i2]
                && updates[a].loaded_from_hub == spec_names_contain(
                hub,
                installations[i2].spec_path(),
            ) && installations[i2].loaded_from_hub != updates[a].loaded_from_hub
}

/// Every surviving record whose Hub flag disagrees with the Hub list has
/// a staged correction (over the first `upto` records).
pub open spec fn spec_updates_complete(
    updates: Seq<HubFlagUpdate>,
    installations: Seq<UnityInstallation>,
    exists_on_disk: Seq<bool>,
    hub: Seq<String>,
    upto: int,
) -> bool {
    forall|i2: int|
        0 <= i2 < upto && exists_on_disk[i2] && spec_names_contain(
            hub,
            (#[trigger] installations[i2]).spec_path(),
        ) != installations[i2].loaded_from_hub ==> exists|a: int|
            0 <= a < updates.len() && updates[a].path@ == installations[i2].spec_path()
                && updates[a].loaded_from_hub == spec_names_contain(
                hub,
                installations[i2].spec_path(),
            )
}

/// One flag correction for a recorded installation.
#[derive(Debug, Clone, PartialEq, Eq)]
pub struct HubFlagUpdate {
    pub path: String,
    pub loaded_from_hub: bool,
}

/// The synchronization plan against the Hub's installation list.
#[derive(Debug, PartialEq, Eq)]
pub struct UnityHubSyncPlan {
    /// Paths of recorded installations whose editor no longer exists.
    pub to_remove: Vec<String>,
    /// Recorded installations whose Hub flag disagrees with the Hub list.
    pub to_update: Vec<HubFlagUpdate>,
    /// Hub paths with no surviving record, to be probed and added.
    pub to_add: Vec<String>,
}

/// Decides the synchronization of the recorded installations against the
/// paths the Unity Hub reports. `exists_on_disk[i]` says whether the
/// editor of `installations[i]` is still a file.
///
/// A record whose editor is gone is removed; a surviving record whose
/// Hub flag disagrees with the Hub list is corrected; a Hub path with no
/// surviving record is added, once.
pub fn plan_unity_hub_sync(
    installations: &Vec<UnityInstallation>,
    exists_on_disk: &Vec<bool>,
    paths_from_hub: &Vec<String>,
) -> (r: UnityHubSyncPlan)
    requires
        installations@.len() == exists_on_disk@.len(),
    ensures
        spec_removals_sound(r.to_remove@, installations@, exists_on_disk@),
        spec_removals_complete(r.to_remove@, installations@, exists_on_disk@),
        spec_updates_sound(r.to_update@, installations@, exists_on_disk@, paths_from_hub@),
        spec_updates_complete(
            r.to_update@,
            installations@,
            exists_on_disk@,
            paths_from_hub@,
            installations@.len() as int,
        ),
        forall|a: int|
            0 <= a < r.to_add@.len() ==> spec_names_contain(
                paths_from_hub@,
                #[trigger] r.to_add@[a]@,
            ) && !(exists|i: int|
                0 <= i < installations@.len() && exists_on_disk@[i]
                    && installations@[i].spec_path() == r.to_add@[a]@),
        forall|h: int|
            0 <= h < paths_from_hub@.len() && !(exists|i: int|
                0 <= i < installations@.len() && exists_on_disk@[i]
                    && installations@[i].spec_path() == #[trigger] paths_from_hub@[h]@)
                ==> spec_names_contain(r.to_add@, paths_from_hub@[h]@),
{
    let n = installations.len();
    let mut to_remove: Vec<String> = Vec::new();
    let mut to_update: Vec<HubFlagUpdate> = Vec::new();
    let mut i: usize = 0;
    while i < n
        invariant
            n == installations@.len(),
            n == exists_on_disk@.len(),
            i <= n,
            spec_removals_sound(to_remove@, installations@, exists_on_disk@),
            forall|i2: int|
                0 <= i2 < i && !exists_on_disk@[i2] ==> spec_names_contain(
                    to_remove@,
                    #[trigger] installations@[i2].spec_path(),
                ),
            spec_updates_sound(to_update@, installations@, exists_on_disk@, paths_from_hub@),
            spec_updates_complete(
                to_update@,
                installations@,
                exists_on_disk@,
                paths_from_hub@,
                i as int,
            ),
        decreases n - i,
    {
        let inst = &installations[i];
        let ghost prev_remove = to_remove@;
        let ghost prev_update = to_update@;
        if !exists_on_disk[i] {
            to_remove.push(inst.path.clone());
            proof {
                assert(to_remove@.last()@ == installations@[i as int].spec_path());
            }
        } else {
            let in_hub = names_contain(paths_from_hub, &inst.path);
            if in_hub != inst.loaded_from_hub {
                to_update.push(HubFlagUpdate { path: inst.path.clone(), loaded_from_hub: in_hub });
                proof {
                    assert(to_update@.last().path@ == installations@[i as int].spec_path());
                    assert(to_update@.last().loaded_from_hub != installations@[
                        i as int
                    ].loaded_from_hub);
                }
            }
        }
        proof {
            assert forall|a: int| 0 <= a < to_remove@.len() implies exists|i2: int|
                0 <= i2 < installations@.len() && installations@[i2].spec_path()
                    == #[trigger] to_remove@[a]@ && !exists_on_disk@[i2] by {
                assert(spec_removals_sound(prev_remove, installations@, exists_on_disk@));
                if a < prev_remove.len() {
                    assert(to_remove@[a] == prev_remove[a]);
                    let w = choose|w: int|
                        0 <= w < installations@.len() && installations@[w].spec_path()
                            == prev_remove[a]@ && !exists_on_disk@[w];
                    assert(installations@[w].spec_path() == to_remove@[a]@
                        && !exists_on_disk@[w]);
                } else {
                    assert(installations@[i as int].spec_path() == to_remove@[a]@
                        && !exists_on_disk@[i as int]);
                }
            }
            assert(spec_removals_sound(to_remove@, installations@, exists_on_disk@));
            assert forall|i2: int| 0 <= i2 < i + 1 && !exists_on_disk@[i2] implies
                spec_names_contain(to_remove@, #[trigger] installations@[i2].spec_path()) by {
                if i2 < i {
                    let w = choose|w: int|
                        0 <= w < prev_remove.len() && prev_remove[w]@
                            == installations@[i2].spec_path();
                    assert(to_remove@[w] == prev_remove[w]);
                } else {
                    assert(to_remove@.last()@ == installations@[i2].spec_path());
                }
            }
            assert forall|a: int| 0 <= a < to_update@.len() implies exists|i2: int|
                0 <= i2 < installations@.len() && installations@[i2].spec_path()
                    == (#[trigger] to_update@[a]).path@ && exists_on_disk@[i2]
                    && to_update@[a].loaded_from_hub == spec_names_contain(
                    paths_from_hub@,
                    installations@[i2].spec_path(),
                ) && installations@[i2].loaded_from_hub != to_update@[a].loaded_from_hub by {
                assert(spec_updates_sound(prev_update, installations@, exists_on_disk@, paths_from_hub@));
                if a < prev_update.len() {
                    assert(to_update@[a] == prev_update[a]);
                    let w = choose|w: int|
                        0 <= w < installations@.len() && installations@[w].spec_path()
                            == prev_update[a].path@ && exists_on_disk@[w]
                            && prev_update[a].loaded_from_hub == spec_names_contain(
                            paths_from_hub@,
                            installations@[w].spec_path(),
                        ) && installations@[w].loaded_from_hub
                            != prev_update[a].loaded_from_hub;
                    assert(installations@[w].spec_path() == to_update@[a].path@
                        && exists_on_disk@[w] && to_update@[a].loaded_from_hub
                        == spec_names_contain(paths_from_hub@, installations@[w].spec_path())
                        && installations@[w].loaded_from_hub != to_update@[a].loaded_from_hub);
                } else {
                    assert(installations@[i as int].spec_path() == to_update@[a].path@
                        && exists_on_disk@[i as int] && to_update@[a].loaded_from_hub
                        == spec_names_contain(
                        paths_from_hub@,
                        installations@[i as int].spec_path(),
                    ) && installations@[i as int].loaded_from_hub
                        != to_update@[a].loaded_from_hub);
                }
            }
            assert(spec_updates_sound(to_update@, installations@, exists_on_disk@, paths_from_hub@));
            assert forall|i2: int|
                0 <= i2 < i + 1 && exists_on_disk@[i2] && spec_names_contain(
                    paths_from_hub@,
                    (#[trigger] installations@[i2]).spec_path(),
                ) != installations@[i2].loaded_from_hub implies exists|a: int|
                0 <= a < to_update@.len() && to_update@[a].path@
                    == installations@[i2].spec_path() && to_update@[a].loaded_from_hub
                    == spec_names_contain(paths_from_hub@, installations@[i2].spec_path()) by {
                if i2 < i {
                    let w = choose|w: int|
                        0 <= w < prev_update.len() && prev_update[w].path@
                            == installations@[i2].spec_path() && prev_update[w].loaded_from_hub
                            == spec_names_contain(
                            paths_from_hub@,
                            installations@[i2].spec_path(),
                        );
                    assert(to_update@[w] == prev_update[w]);
                } else {
                    assert(to_update@.last().path@ == installations@[i2].spec_path());
                    assert(to_update@.last().loaded_from_hub == spec_names_contain(
                        paths_from_hub@,
                        installations@[i2].spec_path(),
                    ));
                }
            }
        }
        i = i + 1;
    }

    let n_hub = paths_from_hub.len();
    let mut to_add: Vec<String> = Vec::new();
    let mut h: usize = 0;
    while h < n_hub
        invariant
            n_hub == paths_from_hub@.len(),
            n == installations@.len(),
            n == exists_on_disk@.len(),
            h <= n_hub,
            spec_removals_sound(to_remove@, installations@, exists_on_disk@),
            spec_removals_complete(to_remove@, installations@, exists_on_disk@),
            spec_updates_sound(to_update@, installations@, exists_on_disk@, paths_from_hub@),
            spec_updates_complete(
                to_update@,
                installations@,
                exists_on_disk@,
                paths_from_hub@,
                installations@.len() as int,
            ),
            forall|a: int|
                0 <= a < to_add@.len() ==> spec_names_contain(
                    paths_from_hub@,
                    #[trigger] to_add@[a]@,
                ) && !(exists|i2: int|
                    0 <= i2 < installations@.len() && exists_on_disk@[i2]
                        && installations@[i2].spec_path() == to_add@[a]@),
            forall|h2: int|
                0 <= h2 < h && !(exists|i2: int|
                    0 <= i2 < installations@.len() && exists_on_disk@[i2]
                        && installations@[i2].spec_path() == #[trigger] paths_from_hub@[h2]@)
                    ==> spec_names_contain(to_add@, paths_from_hub@[h2]@),
        decreases n_hub - h,
    {
        let hub_path = &paths_from_hub[h];
        let mut installed = false;
        let mut i2: usize = 0;
        while i2 < n
            invariant
                n == installations@.len(),
                n == exists_on_disk@.len(),
                i2 <= n,
                h < paths_from_hub@.len(),
                hub_path@ == paths_from_hub@[h as int]@,
                installed ==> exists|k: int|
                    0 <= k < installations@.len() && exists_on_disk@[k]
                        && installations@[k].spec_path() == hub_path@,
                !installed ==> forall|k: int|
                    0 <= k < i2 ==> !(exists_on_disk@[k] && installations@[k].spec_path()
                        == hub_path@),
            decreases n - i2,
        {
            if exists_on_disk[i2] && installations[i2].path.eq(hub_path) {
                installed = true;
            }
            i2 = i2 + 1;
        }
        let ghost prev_add = to_add@;
        if !installed && !names_contain(&to_add, hub_path) {
            to_add.push(hub_path.clone());
            proof {
                assert(to_add@.last()@ == paths_from_hub@[h as int]@);
            }
        }
        proof {
            assert forall|a: int| 0 <= a < to_add@.len() implies spec_names_contain(
                paths_from_hub@,
                (#[trigger] to_add@[a])@,
            ) && !(exists|i2: int|
                0 <= i2 < installations@.len() && exists_on_disk@[i2]
                    && installations@[i2].spec_path() == to_add@[a]@) by {
                if a < prev_add.len() {
                    assert(to_add@[a] == prev_add[a]);
                } else {
                    assert(to_add@[a]@ == paths_from_hub@[h as int]@);
                    assert(spec_names_contain(paths_from_hub@, to_add@[a]@));
                }
            }
            assert forall|h2: int| 0 <= h2 < h + 1 && !(exists|i2: int|
                0 <= i2 < installations@.len() && exists_on_disk@[i2]
                    && installations@[i2].spec_path() == #[trigger] paths_from_hub@[h2]@)
                implies spec_names_contain(to_add@, paths_from_hub@[h2]@) by {
                if h2 < h {
                    let w = choose|w: int|
                        0 <= w < prev_add.len() && prev_add[w]@ == paths_from_hub@[h2]@;
                    assert(to_add@[w] == prev_add[w]);
                } else {
                    if spec_names_contain(prev_add, paths_from_hub@[h2]@) {
                        let w = choose|w: int|
                            0 <= w < prev_add.len() && prev_add[w]@ == paths_from_hub@[h2]@;
                        assert(to_add@[w] == prev_add[w]);
                    } else {
                        assert(to_add@.last()@ == paths_from_hub@[h2]@);
                    }
                }
            }
        }
        h = h + 1;
    }

    UnityHubSyncPlan { to_remove, to_update, to_add }
}

/// The prefix of a process's output before its first space byte: the
/// token an editor prints first when asked for its version.
pub fn prefix_before_space(output: &Vec<u8>) -> (r: Vec<u8>)
    ensures
        r@.len() <= output@.len(),
        r@ == output@.take(r@.len() as int),
        forall|j: int| 0 <= j < r@.len() ==> output@[j] != 32,
        r@.len() < output@.len() ==> output@[r@.len() as int] == 32,
{
    let len = output.len();
    let mut cut: usize = 0;
    while cut < len && output[cut] != 32
        invariant
            len == output@.len(),
            cut <= len,
            forall|j: int| 0 <= j < cut ==> output@[j] != 32,
        decreases len - cut,
    {
        cut = cut + 1;
    }
    let mut r: Vec<u8> = Vec::new();
    let mut k: usize = 0;
    while k < cut
        invariant
            cut <= output@.len(),
            k <= cut,
            r@ =~= output@.take(k as int),
            forall|j: int| 0 <= j < cut ==> output@[j] != 32,
            cut < output@.len() ==> output@[cut as int] == 32,
        decreases cut - k,
    {
        proof {
            assert(output@.take(k as int + 1) =~= output@.take(k as int).push(output@[k as int]));
        }
        r.push(output[k]);
        k = k + 1;
    }
    r
}

} // verus!
