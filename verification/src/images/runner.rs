//! One import from start to finish over the fakes: download, verify, land,
//! and leave no staging file behind. The in-memory store remembers what it
//! was asked to do.
use vstd::prelude::*;
use crate::common::image::{ImageState, ImageType};
use crate::images::import::{
    ImportPlan, Outcome, StoreStep, check_download, land_steps, landing_steps, outcome_of, raw_volume_size, step_view,
    steps_view, MIB, cleanup_after_failure, image_place, same_ignoring_case,
};
use crate::images::store::{staging_file, staging_path};
use crate::images::transport::{FakeTransport, not_served};
use crate::images::types::{Compression, ImageError};
use crate::images::{IMAGE_SNAPSHOT, image_dataset, iso_path};
use crate::common::digest::sha256_of;
use crate::common::id::uuid_text;
use crate::images::types::hex_of;
use crate::text::{chars_of, concat, str_eq, string_from};
use crate::zfs::keyed::{entry, has_key};

verus! {

/// What the in-memory store holds, by name.
pub struct StoreView {
    /// Datasets and zvols made, in order.
    pub datasets: Seq<Seq<char>>,
    /// Snapshots taken.
    pub snapshots: Seq<Seq<char>>,
    /// Files kept.
    pub kept: Seq<Seq<char>>,
    /// Files staged and not yet moved or removed.
    pub staged: Seq<Seq<char>>,
}

/// `s` without any `x`.
pub open spec fn without_all(s: Seq<Seq<char>>, x: Seq<char>) -> Seq<Seq<char>>
    decreases s.len(),
{
    if s.len() == 0 {
        s
    } else if s.last() == x {
        without_all(s.drop_last(), x)
    } else {
        without_all(s.drop_last(), x).push(s.last())
    }
}

/// What one store step does, reading the staged file from `staging`.
pub open spec fn step_applied(st: StoreView, step: (int, Seq<char>, Compression, u64), staging: Seq<char>)
    -> Result<StoreView, Seq<char>> {
    let name = step.1;
    if step.0 == 0 || step.0 == 1 {
        if st.staged.contains(staging) {
            Ok(StoreView { datasets: st.datasets.push(name), ..st })
        } else {
            Err(staging + ": missing"@)
        }
    } else if step.0 == 2 {
        Ok(StoreView { snapshots: st.snapshots.push(name + "@"@ + IMAGE_SNAPSHOT@), ..st })
    } else if step.0 == 3 {
        if st.staged.contains(staging) {
            Ok(StoreView { kept: st.kept.push(name), staged: without_all(st.staged, staging), ..st })
        } else {
            Err(staging + ": missing"@)
        }
    } else if step.0 == 4 {
        Ok(StoreView { datasets: without_all(st.datasets, name), ..st })
    } else {
        Ok(StoreView { staged: without_all(st.staged, name), ..st })
    }
}

/// Remembers what it was asked to do; datasets, snapshots, and files are
/// names in lists.
pub struct FakeStore {
    datasets: Vec<String>,
    snapshots: Vec<String>,
    kept: Vec<String>,
    staged: Vec<String>,
}

fn names(v: &Vec<String>) -> (r: Vec<String>)
    ensures
        crate::common::shell::string_views(r@) == crate::common::shell::string_views(v@),
{
    let mut out: Vec<String> = Vec::new();
    let mut i: usize = 0;
    while i < v.len()
        invariant
            0 <= i <= v@.len(),
            crate::common::shell::string_views(out@) == crate::common::shell::string_views(v@).take(i as int),
        decreases v@.len() - i,
    {
        out.push(v[i].clone());
        assert(crate::common::shell::string_views(v@).take(i + 1)
            == crate::common::shell::string_views(v@).take(i as int).push(v@[i as int]@));
        i = i + 1;
    }
    assert(crate::common::shell::string_views(v@).take(v@.len() as int) == crate::common::shell::string_views(v@));
    out
}

fn remove_all(v: &Vec<String>, x: &str) -> (r: Vec<String>)
    ensures
        crate::common::shell::string_views(r@) == without_all(crate::common::shell::string_views(v@), x@),
{
    let ghost sv = crate::common::shell::string_views(v@);
    let mut out: Vec<String> = Vec::new();
    let mut i: usize = 0;
    while i < v.len()
        invariant
            0 <= i <= v@.len(),
            sv == crate::common::shell::string_views(v@),
            crate::common::shell::string_views(out@) == without_all(sv.take(i as int), x@),
        decreases v@.len() - i,
    {
        assert(sv.take(i + 1).drop_last() == sv.take(i as int));
        assert(sv.take(i + 1).last() == v@[i as int]@);
        if !str_eq(v[i].as_str(), x) {
            out.push(v[i].clone());
        }
        i = i + 1;
    }
    assert(sv.take(v@.len() as int) == sv);
    out
}

fn contains_name(v: &Vec<String>, x: &str) -> (r: bool)
    ensures
        r == crate::common::shell::string_views(v@).contains(x@),
{
    let ghost sv = crate::common::shell::string_views(v@);
    let mut i: usize = 0;
    while i < v.len()
        invariant
            0 <= i <= v@.len(),
            sv == crate::common::shell::string_views(v@),
            forall|j: int| 0 <= j < i ==> sv[j] != x@,
        decreases v@.len() - i,
    {
        if str_eq(v[i].as_str(), x) {
            assert(sv[i as int] == x@);
            return true;
        }
        i = i + 1;
    }
    false
}

impl FakeStore {
    /// What the store holds.
    pub closed spec fn view(&self) -> StoreView {
        StoreView {
            datasets: crate::common::shell::string_views(self.datasets@),
            snapshots: crate::common::shell::string_views(self.snapshots@),
            kept: crate::common::shell::string_views(self.kept@),
            staged: crate::common::shell::string_views(self.staged@),
        }
    }

    /// An empty store.
    pub fn new() -> (r: FakeStore)
        ensures
            r.view().datasets.len() == 0,
            r.view().snapshots.len() == 0,
            r.view().kept.len() == 0,
            r.view().staged.len() == 0,
    {
        FakeStore { datasets: Vec::new(), snapshots: Vec::new(), kept: Vec::new(), staged: Vec::new() }
    }

    /// Datasets and zvols made, in order.
    pub fn datasets(&self) -> (r: Vec<String>)
        ensures
            crate::common::shell::string_views(r@) == self.view().datasets,
    {
        names(&self.datasets)
    }

    /// Snapshots taken, in order.
    pub fn snapshots(&self) -> (r: Vec<String>)
        ensures
            crate::common::shell::string_views(r@) == self.view().snapshots,
    {
        names(&self.snapshots)
    }

    /// Files kept, in order.
    pub fn kept(&self) -> (r: Vec<String>)
        ensures
            crate::common::shell::string_views(r@) == self.view().kept,
    {
        names(&self.kept)
    }

    /// Whether a file is staged.
    pub fn is_staged(&self, path: &str) -> (r: bool)
        ensures
            r == self.view().staged.contains(path@),
    {
        contains_name(&self.staged, path)
    }

    /// Write a downloaded payload to a staging file.
    pub fn stage(&mut self, path: &str)
        ensures
            final(self).view() == (StoreView { staged: old(self).view().staged.push(path@), ..old(self).view() }),
    {
        let ghost before = self.staged@;
        self.staged.push(path.to_owned());
        assert(crate::common::shell::string_views(self.staged@)
            =~= crate::common::shell::string_views(before).push(path@));
    }

    /// Do one store step, reading the staged payload from `staging`.
    pub fn apply(&mut self, step: &StoreStep, staging: &str) -> (r: Result<(), ImageError>)
        ensures
            r is Ok <==> step_applied(old(self).view(), step_view(*step), staging@) is Ok,
            r is Ok ==> final(self).view() == step_applied(old(self).view(), step_view(*step), staging@)->Ok_0,
            r is Err ==> final(self).view() == old(self).view(),
            r matches Err(e) ==> (e matches ImageError::Io(m)
                && m@ == step_applied(old(self).view(), step_view(*step), staging@)->Err_0),
    {
        let present = contains_name(&self.staged, staging);
        let ghost d0 = self.datasets@;
        let ghost s0 = self.snapshots@;
        let ghost k0 = self.kept@;
        let missing = || -> (r: ImageError)
            ensures
                r matches ImageError::Io(m) && m@ == staging@ + ": missing"@,
        {
            ImageError::Io(string_from(concat(chars_of(staging).as_slice(), chars_of(": missing").as_slice()).as_slice()))
        };
        match step {
            StoreStep::Receive { dataset, .. } => {
                if !present {
                    return Err(missing());
                }
                self.datasets.push(dataset.clone());
                assert(crate::common::shell::string_views(self.datasets@)
                    =~= crate::common::shell::string_views(d0).push(dataset@));
            },
            StoreStep::WriteVolume { zvol, .. } => {
                if !present {
                    return Err(missing());
                }
                self.datasets.push(zvol.clone());
                assert(crate::common::shell::string_views(self.datasets@)
                    =~= crate::common::shell::string_views(d0).push(zvol@));
            },
            StoreStep::Snapshot { dataset } => {
                let a = concat(chars_of(dataset.as_str()).as_slice(), chars_of("@").as_slice());
                let n = string_from(concat(a.as_slice(), chars_of(IMAGE_SNAPSHOT).as_slice()).as_slice());
                self.snapshots.push(n);
                assert(crate::common::shell::string_views(self.snapshots@)
                    =~= crate::common::shell::string_views(s0).push(n@));
            },
            StoreStep::KeepFile { dest } => {
                if !present {
                    return Err(missing());
                }
                self.kept.push(dest.clone());
                assert(crate::common::shell::string_views(self.kept@)
                    =~= crate::common::shell::string_views(k0).push(dest@));
                self.staged = remove_all(&self.staged, staging);
            },
            StoreStep::Destroy { dataset } => {
                self.datasets = remove_all(&self.datasets, dataset.as_str());
            },
            StoreStep::RemoveFile { path } => {
                self.staged = remove_all(&self.staged, path.as_str());
            },
        }
        Ok(())
    }
}

/// Removing a name twice removes it once.
proof fn lemma_without_twice(s: Seq<Seq<char>>, x: Seq<char>)
    ensures
        without_all(without_all(s, x), x) == without_all(s, x),
    decreases s.len(),
{
    if s.len() > 0 {
        lemma_without_twice(s.drop_last(), x);
        if s.last() != x {
            let w = without_all(s.drop_last(), x);
            assert(w.push(s.last()).drop_last() == w);
        }
    }
}

/// The states an import reports, in order: downloading, then verifying
/// once the payload arrived, then importing once it matched.
pub open spec fn import_states(served: bool, hash_ok: bool) -> Seq<ImageState> {
    if !served {
        seq![ImageState::Downloading]
    } else if !hash_ok {
        seq![ImageState::Downloading, ImageState::Verifying]
    } else {
        seq![ImageState::Downloading, ImageState::Verifying, ImageState::Importing]
    }
}

/// What a landed import adds to the store: the dataset or zvol and its
/// `@image` snapshot, or the kept file.
pub open spec fn landed(st: StoreView, plan: ImportPlan) -> StoreView {
    let place = image_place(plan.image_type, plan.pool@, plan.id.value());
    if plan.image_type == ImageType::VmIso {
        StoreView { kept: st.kept.push(place), ..st }
    } else {
        StoreView {
            datasets: st.datasets.push(place),
            snapshots: st.snapshots.push(place + "@"@ + IMAGE_SNAPSHOT@),
            ..st
        }
    }
}

/// Where a plan's payload is staged.
pub open spec fn plan_staging(plan: ImportPlan) -> Seq<char> {
    staging_file(plan.pool@, uuid_text(plan.id.value()))
}

/// Run an import over the fakes: report downloading, fetch the payload
/// into its staging file, report verifying and check its hash, report
/// importing and land it; on a failed landing destroy what was made; and
/// in every case remove the staging file.
pub fn run_import(transport: &FakeTransport, store: &mut FakeStore, plan: &ImportPlan)
    -> (r: (Result<Outcome, ImageError>, Vec<ImageState>))
    requires
        plan.image_type == ImageType::VmRaw ==> plan.size <= u64::MAX - (MIB - 1),
    ensures
        ({
            let served = has_key(transport.served(), plan.url@);
            let body = entry(transport.served(), plan.url@).body@;
            let hash_ok = same_ignoring_case(hex_of(sha256_of(body)), plan.sha256@);
            let cleaned = StoreView {
                staged: without_all(old(store).view().staged, plan_staging(*plan)),
                ..old(store).view()
            };
            &&& r.1@ == import_states(served, hash_ok)
            &&& !served ==> (r.0 matches Err(ImageError::Transport(m)) && m@ == not_served(plan.url@))
            &&& served && !hash_ok ==> (r.0 matches Err(ImageError::Verify { expected, actual })
                && expected@ == crate::text::lower(plan.sha256@) && actual@ == hex_of(sha256_of(body)))
            &&& r.0 is Err ==> final(store).view() == cleaned
            &&& served && hash_ok ==> (r.0 matches Ok(o) && final(store).view() == landed(cleaned, *plan)
                && (plan.image_type == ImageType::VmIso ==> o.dataset is None
                    && (o.path matches Some(p) && p@ == iso_path(plan.pool@, plan.id.value())))
                && (plan.image_type != ImageType::VmIso ==> o.path is None
                    && (o.dataset matches Some(d) && d@ == image_dataset(plan.pool@, plan.id.value()))))
        }),
{
    let staging = staging_path(plan.pool.as_str(), plan.id.to_text().as_str());
    let ghost st0 = store.view();
    let mut states: Vec<ImageState> = Vec::new();
    states.push(ImageState::Downloading);
    let remove = StoreStep::RemoveFile { path: staging.clone() };
    let (_body, downloaded) = match transport.download(plan.url.as_str()) {
        Ok(x) => x,
        Err(e) => {
            let _ = store.apply(&remove, staging.as_str());
            return (Err(e), states);
        },
    };
    store.stage(staging.as_str());
    let ghost st1 = store.view();
    states.push(ImageState::Verifying);
    if let Err(e) = check_download(plan, downloaded.sha256.as_str()) {
        proof {
            assert(st1.staged.drop_last() == st0.staged);
        }
        let _ = store.apply(&remove, staging.as_str());
        return (Err(e), states);
    }
    states.push(ImageState::Importing);
    let steps = land_steps(plan);
    proof {
        reveal_strlit("image");
        assert(st1.staged.last() == staging@);
        assert(st1.staged.contains(staging@)) by {
            assert(st1.staged[st1.staged.len() - 1] == staging@);
        }
        assert(steps_view(steps@).len() == steps@.len());
        assert(landing_steps(*plan).len() >= 1);
        assert(steps_view(steps@)[0] == step_view(steps@[0]));
    }
    let mut failed: Option<ImageError> = None;
    if let Err(e) = store.apply(&steps[0], staging.as_str()) {
        failed = Some(e);
    }
    if failed.is_none() && steps.len() > 1 {
        proof {
            assert(steps_view(steps@)[1] == step_view(steps@[1]));
        }
        if let Err(e) = store.apply(&steps[1], staging.as_str()) {
            failed = Some(e);
        }
    }
    if let Some(e) = failed {
        if let Some(c) = cleanup_after_failure(plan) {
            let _ = store.apply(&c, staging.as_str());
        }
        let _ = store.apply(&remove, staging.as_str());
        return (Err(e), states);
    }
    let _ = store.apply(&remove, staging.as_str());
    proof {
        lemma_without_twice(st0.staged, staging@);
        assert(st1.staged.drop_last() == st0.staged);
    }
    (Ok(outcome_of(plan)), states)
}

} // verus!
