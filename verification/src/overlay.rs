//! The overlay build: shadow-directory contents, source cleanup and
//! executable substitution, computed as a plan over directory listings.
//!
//! A build deletes and recreates the shadow directory, fills it with one
//! entry per runtime entry (symlinks for subdirectories, hard links for
//! files, the main executable hard-linked under the target's own filename),
//! adds the single `resources` symlink into the application's directory,
//! strips the installation directory down to its `resources` subtree, and
//! finally replants the target executable path as a symlink into the shadow
//! directory. Everything here is computed before any filesystem mutation;
//! the surrounding binary carries the plan out step by step.

use crate::entries::{DirEntry, DirEntryView, EntryKind};
use vstd::prelude::*;
use vstd::string::StringExecFns;

verus! {

/// Name of the resource subtree, both in the runtime (where it is skipped)
/// and in the application's installation directory (where it is kept).
pub open spec fn resources_name() -> Seq<char> {
    "resources"@
}

/// Filename of the shared runtime's main executable.
pub open spec fn runtime_exec_name() -> Seq<char> {
    "electron"@
}

/// Where one shadow-directory entry draws its content from.
#[derive(PartialEq, Eq, Debug)]
pub enum ShadowSource {
    /// Symlink to the runtime subdirectory of this name.
    RuntimeDirLink { runtime_name: String },
    /// Hard link to the runtime file of this name.
    RuntimeFileLink { runtime_name: String },
    /// Symlink to the application's own `resources` subdirectory.
    ResourceLink,
}

/// Mathematical form of a [`ShadowSource`].
pub enum ShadowSourceView {
    RuntimeDirLink { runtime_name: Seq<char> },
    RuntimeFileLink { runtime_name: Seq<char> },
    ResourceLink,
}

impl View for ShadowSource {
    type V = ShadowSourceView;

    open spec fn view(&self) -> ShadowSourceView {
        match self {
            ShadowSource::RuntimeDirLink { runtime_name } => ShadowSourceView::RuntimeDirLink {
                runtime_name: runtime_name@,
            },
            ShadowSource::RuntimeFileLink { runtime_name } => ShadowSourceView::RuntimeFileLink {
                runtime_name: runtime_name@,
            },
            ShadowSource::ResourceLink => ShadowSourceView::ResourceLink,
        }
    }
}

/// One entry of the freshly built shadow directory: the name it is created
/// under, and its source.
#[derive(PartialEq, Eq, Debug)]
pub struct ShadowEntry {
    pub name: String,
    pub source: ShadowSource,
}

/// Mathematical form of a [`ShadowEntry`].
pub struct ShadowEntryView {
    pub name: Seq<char>,
    pub source: ShadowSourceView,
}

impl View for ShadowEntry {
    type V = ShadowEntryView;

    open spec fn view(&self) -> ShadowEntryView {
        ShadowEntryView { name: self.name@, source: self.source@ }
    }
}

impl DeepView for ShadowEntry {
    type V = ShadowEntryView;

    open spec fn deep_view(&self) -> ShadowEntryView {
        self.view()
    }
}

/// One destructive step of the source cleanup pass, applied to an immediate
/// entry of the application's installation directory.
#[derive(PartialEq, Eq, Debug)]
pub enum CleanupAction {
    /// Recursively delete the subdirectory of this name.
    RemoveTree { name: String },
    /// Delete the file of this name.
    RemoveFile { name: String },
}

/// Mathematical form of a [`CleanupAction`].
pub enum CleanupActionView {
    RemoveTree { name: Seq<char> },
    RemoveFile { name: Seq<char> },
}

impl View for CleanupAction {
    type V = CleanupActionView;

    open spec fn view(&self) -> CleanupActionView {
        match self {
            CleanupAction::RemoveTree { name } => CleanupActionView::RemoveTree { name: name@ },
            CleanupAction::RemoveFile { name } => CleanupActionView::RemoveFile { name: name@ },
        }
    }
}

impl DeepView for CleanupAction {
    type V = CleanupActionView;

    open spec fn deep_view(&self) -> CleanupActionView {
        self.view()
    }
}

/// How one runtime entry is carried into the shadow directory: `Ok(None)`
/// when it is skipped, `Err` with the entry's name when its kind admits no
/// handling.
pub open spec fn overlay_entry(e: DirEntryView, target_name: Seq<char>) -> Result<
    Option<ShadowEntryView>,
    Seq<char>,
> {
    match e.kind {
        EntryKind::Dir => if e.name == resources_name() {
            Ok(None)
        } else {
            Ok(
                Some(
                    ShadowEntryView {
                        name: e.name,
                        source: ShadowSourceView::RuntimeDirLink { runtime_name: e.name },
                    },
                ),
            )
        },
        EntryKind::File => if e.name == runtime_exec_name() {
            Ok(
                Some(
                    ShadowEntryView {
                        name: target_name,
                        source: ShadowSourceView::RuntimeFileLink { runtime_name: e.name },
                    },
                ),
            )
        } else {
            Ok(
                Some(
                    ShadowEntryView {
                        name: e.name,
                        source: ShadowSourceView::RuntimeFileLink { runtime_name: e.name },
                    },
                ),
            )
        },
        EntryKind::Other => Err(e.name),
    }
}

/// The runtime overlay pass over a runtime listing, in listing order. The
/// error is the name of the first entry that is neither a file nor a
/// directory.
pub open spec fn runtime_overlay(rt: Seq<DirEntryView>, target_name: Seq<char>) -> Result<
    Seq<ShadowEntryView>,
    Seq<char>,
>
    decreases rt.len(),
{
    if rt.len() == 0 {
        Ok(Seq::empty())
    } else {
        match runtime_overlay(rt.drop_last(), target_name) {
            Ok(p) => match overlay_entry(rt.last(), target_name) {
                Ok(Some(s)) => Ok(p.push(s)),
                Ok(None) => Ok(p),
                Err(n) => Err(n),
            },
            Err(n) => Err(n),
        }
    }
}

/// Full contents of a freshly built shadow directory: the runtime overlay
/// entries in listing order, then the single `resources` symlink.
pub open spec fn shadow_contents(rt: Seq<DirEntryView>, target_name: Seq<char>) -> Result<
    Seq<ShadowEntryView>,
    Seq<char>,
> {
    match runtime_overlay(rt, target_name) {
        Ok(p) => Ok(
            p.push(
                ShadowEntryView { name: resources_name(), source: ShadowSourceView::ResourceLink },
            ),
        ),
        Err(n) => Err(n),
    }
}

/// Whether the source cleanup keeps an entry of the installation directory:
/// only the `resources` subdirectory survives.
pub open spec fn cleanup_keeps(e: DirEntryView) -> bool {
    e.kind is Dir && e.name == resources_name()
}

/// The destructive step for one installation-directory entry, or `None`
/// where the entry is kept.
pub open spec fn cleanup_action(e: DirEntryView) -> Option<CleanupActionView> {
    match e.kind {
        EntryKind::Dir => if e.name == resources_name() {
            None
        } else {
            Some(CleanupActionView::RemoveTree { name: e.name })
        },
        _ => Some(CleanupActionView::RemoveFile { name: e.name }),
    }
}

/// The cleanup pass over an installation listing, in listing order.
pub open spec fn cleanup_actions(src: Seq<DirEntryView>) -> Seq<CleanupActionView>
    decreases src.len(),
{
    if src.len() == 0 {
        Seq::empty()
    } else {
        let p = cleanup_actions(src.drop_last());
        match cleanup_action(src.last()) {
            Some(a) => p.push(a),
            None => p,
        }
    }
}

/// What the installation directory holds once the cleanup pass ran.
pub open spec fn cleanup_survivors(src: Seq<DirEntryView>) -> Seq<DirEntryView>
    decreases src.len(),
{
    if src.len() == 0 {
        Seq::empty()
    } else {
        let p = cleanup_survivors(src.drop_last());
        if cleanup_keeps(src.last()) {
            p.push(src.last())
        } else {
            p
        }
    }
}

/// Everything one build changes, computed before any filesystem mutation.
///
/// The shadow directory is deleted and recreated on every build, so
/// `shadow_entries` is its complete content, whatever stood there before.
/// After the plan is carried out, the target executable path is a symlink to
/// the shadow entry named `target_link_name`.
#[derive(PartialEq, Eq, Debug)]
pub struct BuildPlan {
    /// Contents of the shadow directory after its fresh re-creation.
    pub shadow_entries: Vec<ShadowEntry>,
    /// Destructive steps applied to the installation directory.
    pub cleanup_actions: Vec<CleanupAction>,
    /// What the installation directory holds once cleanup ran.
    pub resource_survivors: Vec<DirEntry>,
    /// Name of the shadow entry the rewritten executable path points at:
    /// the target executable's own filename.
    pub target_link_name: String,
}

/// The overlay build over the runtime and installation listings, for a
/// target executable filename. Returns the full plan, or the name of the
/// first runtime entry that is neither a file nor a directory; in the error
/// case nothing is planned and the build aborts before the destructive
/// passes.
pub fn build_plan(
    runtime_entries: &Vec<DirEntry>,
    resource_entries: &Vec<DirEntry>,
    target_name: &String,
) -> (r: Result<BuildPlan, String>)
    ensures
        match r {
            Ok(plan) => {
                &&& shadow_contents(runtime_entries.deep_view(), target_name@) == Ok::<
                    Seq<ShadowEntryView>,
                    Seq<char>,
                >(plan.shadow_entries.deep_view())
                &&& plan.cleanup_actions.deep_view() == cleanup_actions(
                    resource_entries.deep_view(),
                )
                &&& plan.resource_survivors.deep_view() == cleanup_survivors(
                    resource_entries.deep_view(),
                )
                &&& plan.target_link_name@ == target_name@
            },
            Err(name) => shadow_contents(runtime_entries.deep_view(), target_name@) == Err::<
                Seq<ShadowEntryView>,
                Seq<char>,
            >(name@),
        },
{
    let ghost rt = runtime_entries.deep_view();
    let ghost src = resource_entries.deep_view();
    let resources = String::from_str("resources");
    let electron = String::from_str("electron");

    let mut shadow: Vec<ShadowEntry> = Vec::new();
    proof {
        assert(rt.take(0) =~= Seq::<DirEntryView>::empty());
        assert(shadow.deep_view() =~= Seq::<ShadowEntryView>::empty());
    }
    let n = runtime_entries.len();
    let mut i: usize = 0;
    while i < n
        invariant
            i <= n,
            n == runtime_entries@.len(),
            rt == runtime_entries.deep_view(),
            resources@ == "resources"@,
            electron@ == "electron"@,
            runtime_overlay(rt.take(i as int), target_name@) == Ok::<
                Seq<ShadowEntryView>,
                Seq<char>,
            >(shadow.deep_view()),
        decreases n - i,
    {
        let e = &runtime_entries[i];
        proof {
            assert(rt.take(i + 1).drop_last() =~= rt.take(i as int));
            assert(rt.take(i + 1).last() == e@);
        }
        let ghost shadow_pre = shadow.deep_view();
        match e.kind {
            EntryKind::Dir => {
                if !(e.name == resources) {
                    shadow.push(
                        ShadowEntry {
                            name: e.name.clone(),
                            source: ShadowSource::RuntimeDirLink { runtime_name: e.name.clone() },
                        },
                    );
                    proof {
                        assert(shadow.deep_view() =~= shadow_pre.push(
                            ShadowEntryView {
                                name: e.name@,
                                source: ShadowSourceView::RuntimeDirLink { runtime_name: e.name@ },
                            },
                        ));
                    }
                }
            },
            EntryKind::File => {
                if e.name == electron {
                    shadow.push(
                        ShadowEntry {
                            name: target_name.clone(),
                            source: ShadowSource::RuntimeFileLink { runtime_name: e.name.clone() },
                        },
                    );
                    proof {
                        assert(shadow.deep_view() =~= shadow_pre.push(
                            ShadowEntryView {
                                name: target_name@,
                                source: ShadowSourceView::RuntimeFileLink { runtime_name: e.name@ },
                            },
                        ));
                    }
                } else {
                    shadow.push(
                        ShadowEntry {
                            name: e.name.clone(),
                            source: ShadowSource::RuntimeFileLink { runtime_name: e.name.clone() },
                        },
                    );
                    proof {
                        assert(shadow.deep_view() =~= shadow_pre.push(
                            ShadowEntryView {
                                name: e.name@,
                                source: ShadowSourceView::RuntimeFileLink { runtime_name: e.name@ },
                            },
                        ));
                    }
                }
            },
            EntryKind::Other => {
                proof {
                    lemma_overlay_err_propagates(rt, target_name@, i as int);
                }
                return Err(e.name.clone());
            },
        }
        i += 1;
    }
    proof {
        assert(rt.take(n as int) =~= rt);
    }
    let ghost overlay_done = shadow.deep_view();
    shadow.push(ShadowEntry { name: resources.clone(), source: ShadowSource::ResourceLink });
    proof {
        assert(shadow.deep_view() =~= overlay_done.push(
            ShadowEntryView { name: resources_name(), source: ShadowSourceView::ResourceLink },
        ));
    }

    let mut actions: Vec<CleanupAction> = Vec::new();
    let mut survivors: Vec<DirEntry> = Vec::new();
    proof {
        assert(src.take(0) =~= Seq::<DirEntryView>::empty());
        assert(actions.deep_view() =~= Seq::<CleanupActionView>::empty());
        assert(survivors.deep_view() =~= Seq::<DirEntryView>::empty());
    }
    let m = resource_entries.len();
    let mut k: usize = 0;
    while k < m
        invariant
            k <= m,
            m == resource_entries@.len(),
            src == resource_entries.deep_view(),
            resources@ == "resources"@,
            actions.deep_view() == cleanup_actions(src.take(k as int)),
            survivors.deep_view() == cleanup_survivors(src.take(k as int)),
        decreases m - k,
    {
        let e = &resource_entries[k];
        proof {
            assert(src.take(k + 1).drop_last() =~= src.take(k as int));
            assert(src.take(k + 1).last() == e@);
        }
        let ghost actions_pre = actions.deep_view();
        let ghost survivors_pre = survivors.deep_view();
        match e.kind {
            EntryKind::Dir => {
                if e.name == resources {
                    survivors.push(e.clone());
                    proof {
                        assert(survivors.deep_view() =~= survivors_pre.push(e@));
                    }
                } else {
                    actions.push(CleanupAction::RemoveTree { name: e.name.clone() });
                    proof {
                        assert(actions.deep_view() =~= actions_pre.push(
                            CleanupActionView::RemoveTree { name: e.name@ },
                        ));
                    }
                }
            },
            _ => {
                actions.push(CleanupAction::RemoveFile { name: e.name.clone() });
                proof {
                    assert(actions.deep_view() =~= actions_pre.push(
                        CleanupActionView::RemoveFile { name: e.name@ },
                    ));
                }
            },
        }
        k += 1;
    }
    proof {
        assert(src.take(m as int) =~= src);
    }

    Ok(
        BuildPlan {
            shadow_entries: shadow,
            cleanup_actions: actions,
            resource_survivors: survivors,
            target_link_name: target_name.clone(),
        },
    )
}

/// The shadow directory's own location: the entry named by the identity key
/// under the apps root. The key names the directory, so one application
/// always rebuilds the same shadow directory and two applications with
/// different keys never share one.
pub fn shadow_dir_path(apps_dir: &str, key: &str) -> (r: String)
    ensures
        r@ == apps_dir@ + "/"@ + key@,
{
    String::from_str(apps_dir).concat("/").concat(key)
}

/// Idempotence: the whole build is a pure function of the runtime listing,
/// the installation listing and the target filename. Since every build
/// deletes and recreates the shadow directory with exactly
/// [`shadow_contents`], a second build from identical inputs leaves a
/// byte-identical shadow directory and nothing of the first build survives.
pub proof fn lemma_build_idempotent(
    rt1: Seq<DirEntryView>,
    rt2: Seq<DirEntryView>,
    src1: Seq<DirEntryView>,
    src2: Seq<DirEntryView>,
    target1: Seq<char>,
    target2: Seq<char>,
)
    requires
        rt1 == rt2,
        src1 == src2,
        target1 == target2,
    ensures
        shadow_contents(rt1, target1) == shadow_contents(rt2, target2),
        cleanup_actions(src1) == cleanup_actions(src2),
        cleanup_survivors(src1) == cleanup_survivors(src2),
{
}

/// No runtime-derived shadow entry is named `resources`, as long as the
/// runtime holds no plain file of that name and the target filename is not
/// `resources` either (a runtime subdirectory named `resources` is skipped
/// by construction).
proof fn lemma_overlay_no_resources(rt: Seq<DirEntryView>, target_name: Seq<char>)
    requires
        forall|i: int|
            0 <= i < rt.len() && (#[trigger] rt[i].kind) !is Dir ==> rt[i].name
                != resources_name(),
        target_name != resources_name(),
        runtime_overlay(rt, target_name) is Ok,
    ensures
        forall|j: int|
            0 <= j < runtime_overlay(rt, target_name)->Ok_0.len() ==> (#[trigger] runtime_overlay(
                rt,
                target_name,
            )->Ok_0[j]).name != resources_name(),
    decreases rt.len(),
{
    if rt.len() > 0 {
        assert(forall|i: int| 0 <= i < rt.len() - 1 ==> rt.drop_last()[i] == rt[i]);
        lemma_overlay_no_resources(rt.drop_last(), target_name);
    }
}

/// Name disjointness: in a successfully built shadow directory the single
/// `resources` entry is the application's resource symlink, standing last,
/// and no runtime-derived entry carries that name.
pub proof fn lemma_resources_disjoint(rt: Seq<DirEntryView>, target_name: Seq<char>)
    requires
        forall|i: int|
            0 <= i < rt.len() && (#[trigger] rt[i].kind) !is Dir ==> rt[i].name
                != resources_name(),
        target_name != resources_name(),
        shadow_contents(rt, target_name) is Ok,
    ensures
        ({
            let p = shadow_contents(rt, target_name)->Ok_0;
            &&& p.len() >= 1
            &&& p.last() == ShadowEntryView {
                name: resources_name(),
                source: ShadowSourceView::ResourceLink,
            }
            &&& forall|j: int| 0 <= j < p.len() - 1 ==> (#[trigger] p[j]).name != resources_name()
        }),
{
    lemma_overlay_no_resources(rt, target_name);
}

/// Every shadow entry named after the target executable is the hard link of
/// the runtime's main executable, provided a runtime entry may only carry
/// the target's name when it is that main executable itself.
proof fn lemma_overlay_target_unique(rt: Seq<DirEntryView>, target_name: Seq<char>)
    requires
        forall|i: int|
            0 <= i < rt.len() && (#[trigger] rt[i].name) == target_name ==> rt[i].kind is File
                && rt[i].name == runtime_exec_name(),
        runtime_overlay(rt, target_name) is Ok,
    ensures
        forall|j: int|
            0 <= j < runtime_overlay(rt, target_name)->Ok_0.len() && (#[trigger] runtime_overlay(
                rt,
                target_name,
            )->Ok_0[j]).name == target_name ==> runtime_overlay(rt, target_name)->Ok_0[j].source
                == (ShadowSourceView::RuntimeFileLink { runtime_name: runtime_exec_name() }),
    decreases rt.len(),
{
    if rt.len() > 0 {
        assert(forall|i: int| 0 <= i < rt.len() - 1 ==> rt.drop_last()[i] == rt[i]);
        lemma_overlay_target_unique(rt.drop_last(), target_name);
    }
}

/// When the runtime holds its main executable as a plain file, the overlay
/// pass hard-links it under the target's filename.
proof fn lemma_overlay_has_exec(rt: Seq<DirEntryView>, target_name: Seq<char>)
    requires
        exists|i: int|
            0 <= i < rt.len() && (#[trigger] rt[i].kind) is File && rt[i].name
                == runtime_exec_name(),
        runtime_overlay(rt, target_name) is Ok,
    ensures
        exists|j: int|
            0 <= j < runtime_overlay(rt, target_name)->Ok_0.len() && #[trigger] runtime_overlay(
                rt,
                target_name,
            )->Ok_0[j] == (ShadowEntryView {
                name: target_name,
                source: ShadowSourceView::RuntimeFileLink { runtime_name: runtime_exec_name() },
            }),
    decreases rt.len(),
{
    let i = choose|i: int|
        0 <= i < rt.len() && (#[trigger] rt[i].kind) is File && rt[i].name == runtime_exec_name();
    let p = runtime_overlay(rt, target_name)->Ok_0;
    if i == rt.len() - 1 {
        assert(p.last() == ShadowEntryView {
            name: target_name,
            source: ShadowSourceView::RuntimeFileLink { runtime_name: runtime_exec_name() },
        });
    } else {
        assert(rt.drop_last()[i] == rt[i]);
        lemma_overlay_has_exec(rt.drop_last(), target_name);
        let overlay_part = runtime_overlay(rt.drop_last(), target_name)->Ok_0;
        let j = choose|j: int|
            0 <= j < overlay_part.len() && #[trigger] overlay_part[j] == (ShadowEntryView {
                name: target_name,
                source: ShadowSourceView::RuntimeFileLink { runtime_name: runtime_exec_name() },
            });
        assert(p[j] == overlay_part[j]);
    }
}

/// Substitution correctness: after a successful build the shadow directory
/// holds an entry named after the target executable that hard-links the
/// runtime's main executable, and every entry of that name is such a hard
/// link — so resolving the rewritten executable path through the shadow
/// directory always ends at the runtime's main executable's bytes.
pub proof fn lemma_substitution(rt: Seq<DirEntryView>, target_name: Seq<char>)
    requires
        shadow_contents(rt, target_name) is Ok,
        target_name != resources_name(),
        exists|i: int|
            0 <= i < rt.len() && (#[trigger] rt[i].kind) is File && rt[i].name
                == runtime_exec_name(),
        forall|i: int|
            0 <= i < rt.len() && (#[trigger] rt[i].name) == target_name ==> rt[i].kind is File
                && rt[i].name == runtime_exec_name(),
    ensures
        ({
            let p = shadow_contents(rt, target_name)->Ok_0;
            &&& exists|j: int|
                0 <= j < p.len() && #[trigger] p[j] == (ShadowEntryView {
                    name: target_name,
                    source: ShadowSourceView::RuntimeFileLink {
                        runtime_name: runtime_exec_name(),
                    },
                })
            &&& forall|j: int|
                0 <= j < p.len() && (#[trigger] p[j]).name == target_name ==> p[j].source
                    == ShadowSourceView::RuntimeFileLink { runtime_name: runtime_exec_name() }
        }),
{
    lemma_overlay_has_exec(rt, target_name);
    lemma_overlay_target_unique(rt, target_name);
    let overlay_part = runtime_overlay(rt, target_name)->Ok_0;
    let p = shadow_contents(rt, target_name)->Ok_0;
    let j = choose|j: int|
        0 <= j < overlay_part.len() && #[trigger] overlay_part[j] == (ShadowEntryView {
            name: target_name,
            source: ShadowSourceView::RuntimeFileLink { runtime_name: runtime_exec_name() },
        });
    assert(p[j] == overlay_part[j]);
}

/// A cleanup pass over entries of which none is kept leaves nothing behind.
proof fn lemma_cleanup_none_kept(src: Seq<DirEntryView>)
    requires
        forall|i: int| 0 <= i < src.len() ==> !cleanup_keeps(#[trigger] src[i]),
    ensures
        cleanup_survivors(src).len() == 0,
    decreases src.len(),
{
    if src.len() > 0 {
        assert(forall|i: int| 0 <= i < src.len() - 1 ==> src.drop_last()[i] == src[i]);
        lemma_cleanup_none_kept(src.drop_last());
    }
}

/// Every cleanup either removes an entry or keeps it: the pass accounts for
/// the whole installation listing.
pub proof fn lemma_cleanup_partition(src: Seq<DirEntryView>)
    ensures
        cleanup_actions(src).len() + cleanup_survivors(src).len() == src.len(),
    decreases src.len(),
{
    if src.len() > 0 {
        lemma_cleanup_partition(src.drop_last());
    }
}

/// Cleanup completeness: when the installation directory's entries carry
/// pairwise distinct names and include the `resources` subdirectory,
/// exactly that one entry survives the cleanup pass — afterwards the
/// installation directory holds `resources` and nothing else.
pub proof fn lemma_cleanup_complete(src: Seq<DirEntryView>)
    requires
        forall|i: int, j: int|
            0 <= i < j < src.len() ==> (#[trigger] src[i]).name != (#[trigger] src[j]).name,
        exists|i: int| 0 <= i < src.len() && cleanup_keeps(#[trigger] src[i]),
    ensures
        cleanup_survivors(src).len() == 1,
        cleanup_survivors(src)[0].kind is Dir,
        cleanup_survivors(src)[0].name == resources_name(),
    decreases src.len(),
{
    let i = choose|i: int| 0 <= i < src.len() && cleanup_keeps(#[trigger] src[i]);
    assert(forall|a: int, b: int|
        0 <= a < b < src.len() - 1 ==> (#[trigger] src.drop_last()[a]).name
            != (#[trigger] src.drop_last()[b]).name);
    if cleanup_keeps(src.last()) {
        assert forall|a: int| 0 <= a < src.len() - 1 implies !cleanup_keeps(
            #[trigger] src.drop_last()[a],
        ) by {
            if cleanup_keeps(src.drop_last()[a]) {
                assert(src[a].name == resources_name());
                assert(src[src.len() - 1].name == resources_name());
            }
        }
        lemma_cleanup_none_kept(src.drop_last());
    } else {
        assert(0 <= i < src.len() - 1);
        assert(src.drop_last()[i] == src[i]);
        lemma_cleanup_complete(src.drop_last());
    }
}

/// Once the overlay pass meets an entry it cannot handle, the whole pass
/// fails with that entry's name, provided everything before it went through.
proof fn lemma_overlay_err_propagates(rt: Seq<DirEntryView>, target_name: Seq<char>, i: int)
    requires
        0 <= i < rt.len(),
        runtime_overlay(rt.take(i), target_name) is Ok,
        overlay_entry(rt[i], target_name) == Err::<Option<ShadowEntryView>, Seq<char>>(rt[i].name),
    ensures
        runtime_overlay(rt, target_name) == Err::<Seq<ShadowEntryView>, Seq<char>>(rt[i].name),
        shadow_contents(rt, target_name) == Err::<Seq<ShadowEntryView>, Seq<char>>(rt[i].name),
    decreases rt.len(),
{
    if rt.len() == i + 1 {
        assert(rt.drop_last() =~= rt.take(i));
        assert(rt.last() == rt[i]);
    } else {
        assert(rt.drop_last().take(i) =~= rt.take(i));
        assert(rt.drop_last()[i] == rt[i]);
        lemma_overlay_err_propagates(rt.drop_last(), target_name, i);
    }
}

} // verus!
