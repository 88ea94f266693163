//! The link engine: nine linking modes over one request, planned as a
//! sequence of steps (create one link, or recreate one directory), and the
//! bookkeeping that turns per-step outcomes into a persisted batch record.
//!
//! Creating the links themselves is filesystem work and stays outside the
//! library: a caller plans a request, performs each step, and hands the
//! outcomes back to `Symlink::link`.

use vstd::prelude::*;
use crate::database::{FileInfo, FileSave};
use crate::error::LinkError;
use crate::codec::pow10;
use crate::paths::{
    get_path_last, is_sep, is_valid_base, join_path, lemma_join_base_name, parent_of,
    spec_base_name, spec_join, spec_parent,
};
use crate::utils::{now_string, random_id, random_id_num};

verus! {

/// The OS primitive one link uses.
#[derive(Debug, Clone, Copy, PartialEq, Eq, Structural)]
pub enum SymlinkType {
    File,
    Dir,
    Hard,
}

impl SymlinkType {
    pub open spec fn spec_label(&self) -> Seq<char> {
        match self {
            SymlinkType::File => "File"@,
            SymlinkType::Dir => "Dir"@,
            SymlinkType::Hard => "Hard"@,
        }
    }

    /// Display label of the kind, persisted on each entry.
    pub fn label(&self) -> (r: &'static str)
        ensures
            r@ == self.spec_label(),
    {
        match self {
            SymlinkType::File => "File",
            SymlinkType::Dir => "Dir",
            SymlinkType::Hard => "Hard",
        }
    }
}

/// The nine linking modes: link kind crossed with fan-out shape.
#[derive(Debug, Clone, Copy, PartialEq, Eq, Structural)]
pub enum LinkType {
    File,
    Files,
    Dir,
    Dirs,
    DirAllFiles,
    DirSurface,
    Hard,
    Hards,
    HardsDirAllFiless,
}

impl LinkType {
    pub open spec fn spec_from(num: u8) -> LinkType {
        if num == 0 {
            LinkType::File
        } else if num == 1 {
            LinkType::Files
        } else if num == 2 {
            LinkType::Dir
        } else if num == 3 {
            LinkType::Dirs
        } else if num == 4 {
            LinkType::DirAllFiles
        } else if num == 5 {
            LinkType::DirSurface
        } else if num == 6 {
            LinkType::Hard
        } else if num == 7 {
            LinkType::Hards
        } else if num == 8 {
            LinkType::HardsDirAllFiless
        } else {
            LinkType::File
        }
    }

    /// Numeric mode selector; an out-of-range value selects the
    /// single-soft-file mode.
    pub fn from(num: u8) -> (r: LinkType)
        ensures
            r == LinkType::spec_from(num),
    {
        match num {
            0 => LinkType::File,
            1 => LinkType::Files,
            2 => LinkType::Dir,
            3 => LinkType::Dirs,
            4 => LinkType::DirAllFiles,
            5 => LinkType::DirSurface,
            6 => LinkType::Hard,
            7 => LinkType::Hards,
            8 => LinkType::HardsDirAllFiless,
            _ => LinkType::File,
        }
    }

    pub open spec fn spec_label(&self) -> Seq<char> {
        match self {
            LinkType::File => "single file"@,
            LinkType::Files => "multi file"@,
            LinkType::Dir => "single dir"@,
            LinkType::Dirs => "multi dir"@,
            LinkType::DirAllFiles => "all files"@,
            LinkType::DirSurface => "dir surface"@,
            LinkType::Hard => "single file (hard)"@,
            LinkType::Hards => "multi file (hard)"@,
            LinkType::HardsDirAllFiless => "all files (hard)"@,
        }
    }

    /// Display label of the mode, persisted on the batch record.
    pub fn label(&self) -> (r: &'static str)
        ensures
            r@ == self.spec_label(),
    {
        match self {
            LinkType::File => "single file",
            LinkType::Files => "multi file",
            LinkType::Dir => "single dir",
            LinkType::Dirs => "multi dir",
            LinkType::DirAllFiles => "all files",
            LinkType::DirSurface => "dir surface",
            LinkType::Hard => "single file (hard)",
            LinkType::Hards => "multi file (hard)",
            LinkType::HardsDirAllFiless => "all files (hard)",
        }
    }

    pub open spec fn spec_kind(&self) -> SymlinkType {
        match self {
            LinkType::File => SymlinkType::File,
            LinkType::Files => SymlinkType::File,
            LinkType::Dir => SymlinkType::Dir,
            LinkType::Dirs => SymlinkType::Dir,
            LinkType::DirAllFiles => SymlinkType::File,
            LinkType::DirSurface => SymlinkType::File,
            LinkType::Hard => SymlinkType::Hard,
            LinkType::Hards => SymlinkType::Hard,
            LinkType::HardsDirAllFiless => SymlinkType::Hard,
        }
    }

    /// The OS primitive the mode's links use (the top-level-only mode decides
    /// per entry instead).
    pub fn kind(&self) -> (r: SymlinkType)
        ensures
            r == self.spec_kind(),
    {
        match self {
            LinkType::File => SymlinkType::File,
            LinkType::Files => SymlinkType::File,
            LinkType::Dir => SymlinkType::Dir,
            LinkType::Dirs => SymlinkType::Dir,
            LinkType::DirAllFiles => SymlinkType::File,
            LinkType::DirSurface => SymlinkType::File,
            LinkType::Hard => SymlinkType::Hard,
            LinkType::Hards => SymlinkType::Hard,
            LinkType::HardsDirAllFiless => SymlinkType::Hard,
        }
    }
}

/// What a directory walk reports for one visited path.  A symbolic link to a
/// directory cannot be told apart from one to a file on every platform; the
/// walk reports either as a link to a file.
#[derive(Debug, Clone, Copy, PartialEq, Eq, Structural)]
pub enum FsKind {
    File,
    Dir,
    SymlinkFile,
    SymlinkDir,
    Other,
}

/// One visited path and what the filesystem shows there.
#[derive(Debug, Clone)]
pub struct FsEntry {
    pub path: String,
    pub kind: FsKind,
}

impl FsEntry {
    pub fn new(path: String, kind: FsKind) -> (r: FsEntry)
        ensures
            r.path@ == path@,
            r.kind == kind,
    {
        FsEntry { path, kind }
    }
}

/// Relies on walkdir::WalkDir: every path under `root`, the root itself
/// included, with what the filesystem shows there.  What is on disk decides,
/// so nothing is claimed of the listing.
#[verifier::external_body]
pub fn walk_tree(root: &str) -> (r: Vec<FsEntry>) {
    let mut out = Vec::new();
    for e in walkdir::WalkDir::new(root) {
        if let Ok(e) = e {
            if let Some(p) = e.path().to_str() {
                let ft = e.file_type();
                let kind = if ft.is_file() { FsKind::File } else if ft.is_dir() { FsKind::Dir } else if ft.is_symlink() { FsKind::SymlinkFile } else { FsKind::Other };
                out.push(FsEntry { path: p.to_string(), kind });
            }
        }
    }
    out
}

/// Relies on walkdir::WalkDir with max_depth 1: the root and its immediate
/// children only.  What is on disk decides, so nothing is claimed of the
/// listing.
#[verifier::external_body]
pub fn walk_surface(root: &str) -> (r: Vec<FsEntry>) {
    let mut out = Vec::new();
    for e in walkdir::WalkDir::new(root).max_depth(1) {
        if let Ok(e) = e {
            if let Some(p) = e.path().to_str() {
                let ft = e.file_type();
                let kind = if ft.is_file() { FsKind::File } else if ft.is_dir() { FsKind::Dir } else if ft.is_symlink() { FsKind::SymlinkFile } else { FsKind::Other };
                out.push(FsEntry { path: p.to_string(), kind });
            }
        }
    }
    out
}

/// One planned action of a link request.
#[derive(Debug, Clone)]
pub enum LinkStep {
    Link { kind: SymlinkType, source: String, target: String },
    MakeDir { target: String },
}

/// Spec-level value of a planned step.
pub ghost enum StepModel {
    Link { kind: SymlinkType, source: Seq<char>, target: Seq<char> },
    MakeDir { target: Seq<char> },
}

impl View for LinkStep {
    type V = StepModel;

    open spec fn view(&self) -> StepModel {
        match self {
            LinkStep::Link { kind, source, target } => StepModel::Link {
                kind: *kind,
                source: source@,
                target: target@,
            },
            LinkStep::MakeDir { target } => StepModel::MakeDir { target: target@ },
        }
    }
}

/// The walk entry is linked as a file under the engine's settings.
pub open spec fn spec_is_file_like(k: FsKind, include_symlinks: bool) -> bool {
    k == FsKind::File || (include_symlinks && k == FsKind::SymlinkFile)
}

/// The walk entry is treated as a directory under the engine's settings.
pub open spec fn spec_is_dir_like(k: FsKind, include_symlinks: bool) -> bool {
    k == FsKind::Dir || (include_symlinks && k == FsKind::SymlinkDir)
}

/// Path of `p` relative to `root` (unchanged when `root` is not its prefix).
pub open spec fn spec_strip_root(root: Seq<char>, p: Seq<char>) -> Seq<char> {
    if p.len() >= root.len() && p.subrange(0, root.len() as int) == root {
        p.subrange(root.len() as int, p.len() as int)
    } else {
        p
    }
}

/// The step the all-files walk takes for one entry: files are linked to the
/// matching path under the target root, directories are recreated there,
/// anything else is skipped.
pub open spec fn spec_all_files_step(
    root: Seq<char>,
    target_root: Seq<char>,
    kind: SymlinkType,
    inc: bool,
    e: FsEntry,
) -> Seq<StepModel> {
    if spec_is_file_like(e.kind, inc) {
        seq![
            StepModel::Link {
                kind,
                source: e.path@,
                target: spec_join(target_root, spec_strip_root(root, e.path@)),
            },
        ]
    } else if spec_is_dir_like(e.kind, inc) {
        seq![StepModel::MakeDir { target: spec_join(target_root, spec_strip_root(root, e.path@)) }]
    } else {
        Seq::empty()
    }
}

/// The steps of the all-files walk over `listing`, in listing order.
pub open spec fn spec_all_files_steps(
    root: Seq<char>,
    target_root: Seq<char>,
    kind: SymlinkType,
    inc: bool,
    listing: Seq<FsEntry>,
) -> Seq<StepModel>
    decreases listing.len(),
{
    if listing.len() == 0 {
        Seq::empty()
    } else {
        spec_all_files_steps(root, target_root, kind, inc, listing.drop_last())
            + spec_all_files_step(root, target_root, kind, inc, listing.last())
    }
}

/// The step the top-level-only walk takes for one entry: the root itself is
/// skipped, a file child becomes a file link, a directory child a directory
/// link, each under its own base name; entries without a usable base name
/// are skipped (the planner reports them instead).
pub open spec fn spec_surface_step(
    root: Seq<char>,
    target_root: Seq<char>,
    inc: bool,
    e: FsEntry,
) -> Seq<StepModel> {
    if e.path@ == root || !is_valid_base(spec_base_name(e.path@)) {
        Seq::empty()
    } else if spec_is_file_like(e.kind, inc) {
        seq![
            StepModel::Link {
                kind: SymlinkType::File,
                source: e.path@,
                target: spec_join(target_root, spec_base_name(e.path@)),
            },
        ]
    } else if spec_is_dir_like(e.kind, inc) {
        seq![
            StepModel::Link {
                kind: SymlinkType::Dir,
                source: e.path@,
                target: spec_join(target_root, spec_base_name(e.path@)),
            },
        ]
    } else {
        Seq::empty()
    }
}

/// A non-root walk entry that should be linked but has no usable base name;
/// the top-level-only planner refuses the whole request on such an entry.
pub open spec fn surface_entry_lacks_base(root: Seq<char>, inc: bool, e: FsEntry) -> bool {
    e.path@ != root && (spec_is_file_like(e.kind, inc) || spec_is_dir_like(e.kind, inc))
        && !is_valid_base(spec_base_name(e.path@))
}

/// The steps of the top-level-only walk over `listing`, in listing order.
pub open spec fn spec_surface_steps(
    root: Seq<char>,
    target_root: Seq<char>,
    inc: bool,
    listing: Seq<FsEntry>,
) -> Seq<StepModel>
    decreases listing.len(),
{
    if listing.len() == 0 {
        Seq::empty()
    } else {
        spec_surface_steps(root, target_root, inc, listing.drop_last()) + spec_surface_step(
            root,
            target_root,
            inc,
            listing.last(),
        )
    }
}

/// Whether the characters of `a` are a prefix of `b`.
fn str_is_prefix(a: &str, b: &str) -> (r: bool)
    ensures
        r == (b@.len() >= a@.len() && b@.subrange(0, a@.len() as int) == a@),
{
    let al = a.unicode_len();
    let bl = b.unicode_len();
    if bl < al {
        return false;
    }
    let mut i: usize = 0;
    while i < al
        invariant
            i <= al,
            al == a@.len(),
            bl == b@.len(),
            al <= bl,
            forall|j: int| 0 <= j < i ==> a@[j] == b@[j],
        decreases al - i,
    {
        if a.get_char(i) != b.get_char(i) {
            assert(b@.subrange(0, al as int)[i as int] != a@[i as int]);
            return false;
        }
        i = i + 1;
    }
    proof {
        assert(b@.subrange(0, al as int) =~= a@);
    }
    true
}

/// Whether two strings hold the same characters.
fn str_same(a: &str, b: &str) -> (r: bool)
    ensures
        r == (a@ == b@),
{
    let al = a.unicode_len();
    let bl = b.unicode_len();
    if al != bl {
        return false;
    }
    let p = str_is_prefix(a, b);
    proof {
        if p {
            assert(b@.subrange(0, al as int) =~= b@);
        } else {
            assert(b@.subrange(0, b@.len() as int) =~= b@);
        }
    }
    p
}

/// Path of `p` relative to `root`.
fn strip_root(root: &str, p: &str) -> (r: String)
    ensures
        r@ == spec_strip_root(root@, p@),
{
    if str_is_prefix(root, p) {
        let rl = root.unicode_len();
        let pl = p.unicode_len();
        p.substring_char(rl, pl).to_owned()
    } else {
        p.to_owned()
    }
}

/// One link request: the source paths, the target root, the mode, the batch
/// display name, and the optional explicit target name for single-source
/// modes.
pub struct Symlink {
    pub source: Vec<String>,
    pub target_path: String,
    pub type_: LinkType,
    pub name: Option<String>,
    pub link_name: String,
    pub include_symlinks: bool,
}

impl Symlink {
    pub fn new(
        source: Vec<String>,
        target_path: String,
        _type: u8,
        link_name: String,
        name: Option<String>,
    ) -> (r: Symlink)
        ensures
            r.source@ == source@,
            r.target_path@ == target_path@,
            r.type_ == LinkType::spec_from(_type),
            r.name == name,
            r.link_name@ == link_name@,
            r.include_symlinks == false,
    {
        Symlink {
            source,
            target_path,
            type_: LinkType::from(_type),
            name,
            link_name,
            include_symlinks: false,
        }
    }

    /// The target name of a single-source request: the override if given,
    /// else the first source's base name.
    pub open spec fn spec_single_name(&self) -> Seq<char> {
        match self.name {
            Some(n) => n@,
            None => spec_base_name(self.source@[0]@),
        }
    }

    /// Plans the single-source modes: exactly one link from the first source
    /// into the target root, named by the override if given, else by the
    /// source's base name.
    pub fn link_one(&self, kind: SymlinkType) -> (r: Result<LinkStep, LinkError>)
        ensures
            match r {
                Ok(step) => {
                    &&& self.source@.len() > 0
                    &&& is_valid_base(spec_base_name(self.source@[0]@))
                    &&& step@ == (StepModel::Link {
                        kind,
                        source: self.source@[0]@,
                        target: spec_join(self.target_path@, self.spec_single_name()),
                    })
                },
                Err(e) => (e == LinkError::NoSourceSelected && self.source@.len() == 0) || (e
                    == LinkError::InvalidPath && self.source@.len() > 0 && !is_valid_base(
                    spec_base_name(self.source@[0]@),
                )),
            },
    {
        if self.source.len() == 0 {
            return Err(LinkError::NoSourceSelected);
        }
        let target_name = get_path_last(self.source[0].as_str())?;
        let name: &str = match &self.name {
            Some(n) => n.as_str(),
            None => target_name.as_str(),
        };
        let target = join_path(self.target_path.as_str(), name);
        Ok(LinkStep::Link { kind, source: self.source[0].clone(), target })
    }

    /// The planned step of one source in a multi-source request.
    pub open spec fn spec_multi_model(&self, kind: SymlinkType, src: Seq<char>) -> StepModel {
        StepModel::Link {
            kind,
            source: src,
            target: spec_join(self.target_path@, spec_base_name(src)),
        }
    }

    /// Plans the multi-source modes: each source linked independently into
    /// the target root under its own base name.
    pub fn link_multi(&self, kind: SymlinkType) -> (r: Result<Vec<LinkStep>, LinkError>)
        ensures
            match r {
                Ok(steps) => {
                    &&& steps@.len() == self.source@.len()
                    &&& forall|i: int|
                        0 <= i < steps@.len() ==> is_valid_base(
                            spec_base_name((#[trigger] self.source@[i])@),
                        )
                    &&& forall|i: int|
                        0 <= i < steps@.len() ==> (#[trigger] steps@[i])@ == self.spec_multi_model(
                            kind,
                            self.source@[i]@,
                        )
                },
                Err(e) => e == LinkError::InvalidPath && (exists|i: int|
                    0 <= i < self.source@.len() && !is_valid_base(
                        spec_base_name((#[trigger] self.source@[i])@),
                    )),
            },
    {
        let mut steps: Vec<LinkStep> = Vec::new();
        let mut i: usize = 0;
        while i < self.source.len()
            invariant
                i <= self.source@.len(),
                steps@.len() == i,
                forall|j: int|
                    0 <= j < i ==> is_valid_base(spec_base_name((#[trigger] self.source@[j])@)),
                forall|j: int|
                    0 <= j < i ==> (#[trigger] steps@[j])@ == self.spec_multi_model(
                        kind,
                        self.source@[j]@,
                    ),
            decreases self.source@.len() - i,
        {
            let name = get_path_last(self.source[i].as_str())?;
            let target = join_path(self.target_path.as_str(), name.as_str());
            steps.push(LinkStep::Link { kind, source: self.source[i].clone(), target });
            i = i + 1;
        }
        Ok(steps)
    }

    /// Plans the all-files walk: every file in the listing is linked to the
    /// matching path under the target root, every directory is recreated
    /// there, so the directory structure is preserved whatever the file link
    /// outcomes.
    pub fn link_dir_all_files(&self, listing: &Vec<FsEntry>, kind: SymlinkType) -> (r: Vec<
        LinkStep,
    >)
        requires
            self.source@.len() > 0,
        ensures
            ({
                let model = spec_all_files_steps(
                    self.source@[0]@,
                    self.target_path@,
                    kind,
                    self.include_symlinks,
                    listing@,
                );
                &&& r@.len() == model.len()
                &&& forall|i: int| 0 <= i < r@.len() ==> (#[trigger] r@[i])@ == model[i]
            }),
    {
        let root = self.source[0].as_str();
        let mut out: Vec<LinkStep> = Vec::new();
        let mut i: usize = 0;
        while i < listing.len()
            invariant
                i <= listing@.len(),
                self.source@.len() > 0,
                ({
                    let model = spec_all_files_steps(
                        self.source@[0]@,
                        self.target_path@,
                        kind,
                        self.include_symlinks,
                        listing@.subrange(0, i as int),
                    );
                    &&& out@.len() == model.len()
                    &&& forall|j: int| 0 <= j < out@.len() ==> (#[trigger] out@[j])@ == model[j]
                }),
                root@ == self.source@[0]@,
            decreases listing@.len() - i,
        {
            proof {
                assert(listing@.subrange(0, i + 1).drop_last() =~= listing@.subrange(0, i as int));
                assert(listing@.subrange(0, i + 1).last() == listing@[i as int]);
            }
            let e = &listing[i];
            let file_like = matches!(e.kind, FsKind::File) || (self.include_symlinks && matches!(
                e.kind,
                FsKind::SymlinkFile,
            ));
            let dir_like = matches!(e.kind, FsKind::Dir) || (self.include_symlinks && matches!(
                e.kind,
                FsKind::SymlinkDir,
            ));
            if file_like {
                let child = strip_root(root, e.path.as_str());
                let target = join_path(self.target_path.as_str(), child.as_str());
                out.push(LinkStep::Link { kind, source: e.path.clone(), target });
            } else if dir_like {
                let child = strip_root(root, e.path.as_str());
                let target = join_path(self.target_path.as_str(), child.as_str());
                out.push(LinkStep::MakeDir { target });
            }
            i = i + 1;
        }
        proof {
            assert(listing@.subrange(0, listing@.len() as int) =~= listing@);
        }
        out
    }

    /// Plans the top-level-only walk: each immediate child of the source
    /// directory is linked under its own base name, as a file link or a
    /// directory link according to what the filesystem shows; the root entry
    /// itself is skipped and nothing below the children is touched.
    pub fn link_dir_surfaces(&self, listing: &Vec<FsEntry>) -> (r: Result<Vec<LinkStep>, LinkError>)
        requires
            self.source@.len() > 0,
        ensures
            match r {
                Ok(steps) => {
                    let model = spec_surface_steps(
                        self.source@[0]@,
                        self.target_path@,
                        self.include_symlinks,
                        listing@,
                    );
                    &&& steps@.len() == model.len()
                    &&& forall|i: int| 0 <= i < steps@.len() ==> (#[trigger] steps@[i])@ == model[i]
                },
                Err(e) => e == LinkError::InvalidPath && (exists|i: int|
                    0 <= i < listing@.len() && surface_entry_lacks_base(
                        self.source@[0]@,
                        self.include_symlinks,
                        #[trigger] listing@[i],
                    )),
            },
    {
        let root = self.source[0].as_str();
        let mut out: Vec<LinkStep> = Vec::new();
        let mut i: usize = 0;
        while i < listing.len()
            invariant
                i <= listing@.len(),
                self.source@.len() > 0,
                ({
                    let model = spec_surface_steps(
                        self.source@[0]@,
                        self.target_path@,
                        self.include_symlinks,
                        listing@.subrange(0, i as int),
                    );
                    &&& out@.len() == model.len()
                    &&& forall|j: int| 0 <= j < out@.len() ==> (#[trigger] out@[j])@ == model[j]
                }),
                root@ == self.source@[0]@,
            decreases listing@.len() - i,
        {
            proof {
                assert(listing@.subrange(0, i + 1).drop_last() =~= listing@.subrange(0, i as int));
                assert(listing@.subrange(0, i + 1).last() == listing@[i as int]);
            }
            let e = &listing[i];
            let is_root = str_same(e.path.as_str(), root);
            let file_like = matches!(e.kind, FsKind::File) || (self.include_symlinks && matches!(
                e.kind,
                FsKind::SymlinkFile,
            ));
            let dir_like = matches!(e.kind, FsKind::Dir) || (self.include_symlinks && matches!(
                e.kind,
                FsKind::SymlinkDir,
            ));
            if !is_root && (file_like || dir_like) {
                match get_path_last(e.path.as_str()) {
                    Err(err) => {
                        proof {
                            assert(surface_entry_lacks_base(
                                self.source@[0]@,
                                self.include_symlinks,
                                listing@[i as int],
                            ));
                        }
                        return Err(err);
                    },
                    Ok(name) => {
                        let target = join_path(self.target_path.as_str(), name.as_str());
                        let kind = if file_like {
                            SymlinkType::File
                        } else {
                            SymlinkType::Dir
                        };
                        out.push(LinkStep::Link { kind, source: e.path.clone(), target });
                    },
                }
            }
            i = i + 1;
        }
        proof {
            assert(listing@.subrange(0, listing@.len() as int) =~= listing@);
        }
        Ok(out)
    }

    /// The planned steps of this request over `listing` (ignored by the
    /// non-walk modes).
    pub open spec fn spec_plan_models(&self, listing: Seq<FsEntry>) -> Seq<StepModel> {
        match self.type_ {
            LinkType::Files => Seq::new(
                self.source@.len(),
                |i: int| self.spec_multi_model(SymlinkType::File, self.source@[i]@),
            ),
            LinkType::Dirs => Seq::new(
                self.source@.len(),
                |i: int| self.spec_multi_model(SymlinkType::Dir, self.source@[i]@),
            ),
            LinkType::Hards => Seq::new(
                self.source@.len(),
                |i: int| self.spec_multi_model(SymlinkType::Hard, self.source@[i]@),
            ),
            LinkType::DirAllFiles => spec_all_files_steps(
                self.source@[0]@,
                self.target_path@,
                SymlinkType::File,
                self.include_symlinks,
                listing,
            ),
            LinkType::HardsDirAllFiless => spec_all_files_steps(
                self.source@[0]@,
                self.target_path@,
                SymlinkType::Hard,
                self.include_symlinks,
                listing,
            ),
            LinkType::DirSurface => spec_surface_steps(
                self.source@[0]@,
                self.target_path@,
                self.include_symlinks,
                listing,
            ),
            _ => seq![
                StepModel::Link {
                    kind: self.type_.spec_kind(),
                    source: self.source@[0]@,
                    target: spec_join(self.target_path@, self.spec_single_name()),
                },
            ],
        }
    }

    /// The planned steps follow this request's strategy over `listing`.
    pub open spec fn spec_plan_matches(&self, steps: Seq<StepModel>, listing: Seq<FsEntry>) -> bool {
        let model = self.spec_plan_models(listing);
        steps.len() == model.len() && forall|i: int| 0 <= i < steps.len() ==> steps[i] == model[i]
    }

    /// A base name this request's strategy needs over `listing` is invalid:
    /// the condition under which planning reports `InvalidPath`.  The
    /// all-files walk derives no base names, so it never does.
    pub open spec fn spec_plan_invalid(&self, listing: Seq<FsEntry>) -> bool {
        match self.type_ {
            LinkType::Files | LinkType::Dirs | LinkType::Hards => exists|i: int|
                0 <= i < self.source@.len() && !is_valid_base(
                    spec_base_name((#[trigger] self.source@[i])@),
                ),
            LinkType::DirSurface => exists|i: int|
                0 <= i < listing.len() && surface_entry_lacks_base(
                    self.source@[0]@,
                    self.include_symlinks,
                    #[trigger] listing[i],
                ),
            LinkType::DirAllFiles | LinkType::HardsDirAllFiless => false,
            _ => !is_valid_base(spec_base_name(self.source@[0]@)),
        }
    }

    /// `spec_plan_invalid` as far as the request alone decides it: for the
    /// top-level-only mode the walked listing decides, so nothing is pinned.
    pub open spec fn spec_plan_auto_invalid(&self) -> bool {
        match self.type_ {
            LinkType::Files | LinkType::Dirs | LinkType::Hards => exists|i: int|
                0 <= i < self.source@.len() && !is_valid_base(
                    spec_base_name((#[trigger] self.source@[i])@),
                ),
            LinkType::DirSurface => true,
            LinkType::DirAllFiles | LinkType::HardsDirAllFiless => false,
            _ => !is_valid_base(spec_base_name(self.source@[0]@)),
        }
    }

    /// Chooses the strategy of this request's mode and produces the planned
    /// steps.  The walk modes plan over `listing`; the other modes ignore it.
    pub fn plan(&self, listing: &Vec<FsEntry>) -> (r: Result<Vec<LinkStep>, LinkError>)
        ensures
            match r {
                Ok(steps) => self.source@.len() > 0 && self.spec_plan_matches(
                    steps@.map_values(|s: LinkStep| s@),
                    listing@,
                ),
                Err(e) => (e == LinkError::NoSourceSelected && self.source@.len() == 0) || (e
                    == LinkError::InvalidPath && self.source@.len() > 0 && self.spec_plan_invalid(
                    listing@,
                )),
            },
    {
        if self.source.len() == 0 {
            return Err(LinkError::NoSourceSelected);
        }
        match self.type_ {
            LinkType::File | LinkType::Dir | LinkType::Hard => {
                let step = self.link_one(self.type_.kind())?;
                let mut v: Vec<LinkStep> = Vec::new();
                v.push(step);
                Ok(v)
            },
            LinkType::Files | LinkType::Dirs | LinkType::Hards => self.link_multi(
                self.type_.kind(),
            ),
            LinkType::DirAllFiles | LinkType::HardsDirAllFiless => Ok(
                self.link_dir_all_files(listing, self.type_.kind()),
            ),
            LinkType::DirSurface => self.link_dir_surfaces(listing),
        }
    }

    /// Plans this request end to end: walks the source directory itself when
    /// the mode calls for it, then chooses the strategy.  What is on disk
    /// decides the walk, so the steps are only known to follow the strategy
    /// over some listing; `plan` states the exact correspondence.
    pub fn plan_auto(&self) -> (r: Result<Vec<LinkStep>, LinkError>)
        ensures
            match r {
                Ok(steps) => self.source@.len() > 0 && (exists|listing: Seq<FsEntry>|
                    #![trigger listing.len()]
                    self.spec_plan_matches(steps@.map_values(|s: LinkStep| s@), listing)),
                Err(e) => (e == LinkError::NoSourceSelected && self.source@.len() == 0) || (e
                    == LinkError::InvalidPath && self.source@.len() > 0
                    && self.spec_plan_auto_invalid()),
            },
    {
        if self.source.len() == 0 {
            return Err(LinkError::NoSourceSelected);
        }
        let listing = match self.type_ {
            LinkType::DirAllFiles | LinkType::HardsDirAllFiless => walk_tree(
                self.source[0].as_str(),
            ),
            LinkType::DirSurface => walk_surface(self.source[0].as_str()),
            _ => Vec::new(),
        };
        let steps = self.plan(&listing)?;
        proof {
            assert(self.spec_plan_matches(steps@.map_values(|s: LinkStep| s@), listing@));
            assert(listing@.len() >= 0);
        }
        Ok(steps)
    }
}

/// The successful link steps of a fan-out, in order: the planned links whose
/// outcome reports success (directory steps carry no entry).
pub open spec fn spec_success_steps(steps: Seq<StepModel>, outcomes: Seq<bool>) -> Seq<StepModel>
    decreases steps.len(),
{
    if steps.len() == 0 {
        Seq::empty()
    } else {
        spec_success_steps(steps.drop_last(), outcomes.drop_last()) + (if steps.last() is Link
            && outcomes.len() == steps.len() && outcomes.last() {
            seq![steps.last()]
        } else {
            Seq::empty()
        })
    }
}

/// How many of the planned steps are links.
pub open spec fn spec_link_count(steps: Seq<StepModel>) -> nat
    decreases steps.len(),
{
    if steps.len() == 0 {
        0
    } else {
        spec_link_count(steps.drop_last()) + (if steps.last() is Link {
            1nat
        } else {
            0nat
        })
    }
}

/// How many planned links failed.
pub open spec fn spec_failure_count(steps: Seq<StepModel>, outcomes: Seq<bool>) -> nat
    decreases steps.len(),
{
    if steps.len() == 0 {
        0
    } else {
        spec_failure_count(steps.drop_last(), outcomes.drop_last()) + (if steps.last() is Link
            && outcomes.len() == steps.len() && !outcomes.last() {
            1nat
        } else {
            0nat
        })
    }
}

/// Accounting of a fan-out (law): the successful entries and the failed
/// attempts together account exactly for the planned links.
pub proof fn lemma_fanout_accounting(steps: Seq<StepModel>, outcomes: Seq<bool>)
    requires
        steps.len() == outcomes.len(),
    ensures
        spec_success_steps(steps, outcomes).len() + spec_failure_count(steps, outcomes)
            == spec_link_count(steps),
    decreases steps.len(),
{
    if steps.len() == 0 {
    } else {
        lemma_fanout_accounting(steps.drop_last(), outcomes.drop_last());
    }
}

/// Multi-source accounting (law): a multi-source plan holds one link per
/// source, so the successful entries plus the failures equal the number of
/// sources.
pub proof fn lemma_multi_accounting(steps: Seq<StepModel>, outcomes: Seq<bool>)
    requires
        steps.len() == outcomes.len(),
        forall|i: int| 0 <= i < steps.len() ==> (#[trigger] steps[i]) is Link,
    ensures
        spec_success_steps(steps, outcomes).len() + spec_failure_count(steps, outcomes)
            == steps.len(),
    decreases steps.len(),
{
    lemma_fanout_accounting(steps, outcomes);
    lemma_link_count_all(steps);
}

proof fn lemma_link_count_all(steps: Seq<StepModel>)
    requires
        forall|i: int| 0 <= i < steps.len() ==> (#[trigger] steps[i]) is Link,
    ensures
        spec_link_count(steps) == steps.len(),
    decreases steps.len(),
{
    if steps.len() == 0 {
    } else {
        lemma_link_count_all(steps.drop_last());
    }
}

/// Single-source naming (law): the planned target of a single-source request
/// keeps exactly the chosen name — the override when given, else the first
/// source's base name — provided that name holds no separator.
pub proof fn lemma_single_link_naming(s: Symlink)
    requires
        s.source@.len() > 0,
        is_valid_base(s.spec_single_name()),
        forall|j: int| 0 <= j < s.spec_single_name().len() ==> !is_sep(s.spec_single_name()[j]),
    ensures
        spec_base_name(spec_join(s.target_path@, s.spec_single_name())) == s.spec_single_name(),
{
    reveal_strlit(".");
    lemma_join_base_name(s.target_path@, s.spec_single_name());
}

/// Tree-walk planning preserves directory structure (law): every directory
/// of the listing yields a make-directory step for the matching path under
/// the target root, independent of any file link outcome.
pub proof fn lemma_walk_preserves_dirs(
    root: Seq<char>,
    target_root: Seq<char>,
    kind: SymlinkType,
    inc: bool,
    listing: Seq<FsEntry>,
    i: int,
)
    requires
        0 <= i < listing.len(),
        spec_is_dir_like(listing[i].kind, inc),
    ensures
        spec_all_files_steps(root, target_root, kind, inc, listing).contains(
            StepModel::MakeDir {
                target: spec_join(target_root, spec_strip_root(root, listing[i].path@)),
            },
        ),
    decreases listing.len(),
{
    let step = StepModel::MakeDir {
        target: spec_join(target_root, spec_strip_root(root, listing[i].path@)),
    };
    let whole = spec_all_files_steps(root, target_root, kind, inc, listing);
    if i == listing.len() - 1 {
        let prev = spec_all_files_steps(root, target_root, kind, inc, listing.drop_last());
        // A dir-like entry is never file-like: the two plain kinds differ and
        // so do the two symlink kinds, so the entry takes the directory branch.
        assert(!spec_is_file_like(listing[i].kind, inc));
        assert(whole[prev.len() as int] == step);
        assert(whole.contains(step));
    } else {
        lemma_walk_preserves_dirs(root, target_root, kind, inc, listing.drop_last(), i);
        assert(listing.drop_last()[i] == listing[i]);
        let prev = spec_all_files_steps(root, target_root, kind, inc, listing.drop_last());
        let j = choose|j: int| 0 <= j < prev.len() && prev[j] == step;
        assert(whole[j] == step);
        assert(whole.contains(step));
    }
}

impl Symlink {
    /// Bookkeeping of one executed request: pairs each planned step with its
    /// outcome, collects one entry per successful link under a fresh random
    /// eight-digit id, counts the failed links, and persists the batch under
    /// a fresh six-character id with the current timestamp.  Returns the
    /// persisted record and the failure count.
    pub fn link(&self, db: &sled::Db, steps: &Vec<LinkStep>, outcomes: &Vec<bool>) -> (r: Result<
        (FileSave, usize),
        LinkError,
    >)
        requires
            outcomes@.len() == steps@.len(),
        ensures
            match r {
                Ok(p) => ({
                    let rec = p.0;
                    let models = steps@.map_values(|s: LinkStep| s@);
                    let succ = spec_success_steps(models, outcomes@);
                    &&& self.source@.len() > 0
                    &&& rec.files@.len() == succ.len()
                    &&& forall|j: int|
                        0 <= j < succ.len() ==> ((#[trigger] succ[j]) matches StepModel::Link {
                            kind,
                            source,
                            target,
                        } && rec.files@[j].source@ == source && rec.files@[j].target@ == target
                            && rec.files@[j].type_@ == kind.spec_label() && pow10(7)
                            <= rec.files@[j].id < pow10(8))
                    &&& p.1 == spec_failure_count(models, outcomes@)
                    &&& rec.id@.len() == 6
                    &&& rec.name@ == self.link_name@
                    &&& rec.source@ == spec_parent(self.source@[0]@)
                    &&& rec.target@ == self.target_path@
                    &&& rec.type_@ == self.type_.spec_label()
                }),
                Err(e) => (e == LinkError::NoSourceSelected && self.source@.len() == 0) || (e
                    == LinkError::StorageUnavailable && self.source@.len() > 0),
            },
    {
        if self.source.len() == 0 {
            return Err(LinkError::NoSourceSelected);
        }
        let ghost models = steps@.map_values(|s: LinkStep| s@);
        let mut fis: Vec<FileInfo> = Vec::new();
        let mut failures: usize = 0;
        let mut i: usize = 0;
        while i < steps.len()
            invariant
                outcomes@.len() == steps@.len(),
                i <= steps@.len(),
                models == steps@.map_values(|s: LinkStep| s@),
                failures <= i,
                ({
                    let succ = spec_success_steps(
                        models.subrange(0, i as int),
                        outcomes@.subrange(0, i as int),
                    );
                    &&& fis@.len() == succ.len()
                    &&& forall|j: int|
                        0 <= j < succ.len() ==> ((#[trigger] succ[j]) matches StepModel::Link {
                            kind,
                            source,
                            target,
                        } && fis@[j].source@ == source && fis@[j].target@ == target
                            && fis@[j].type_@ == kind.spec_label() && pow10(7) <= fis@[j].id
                            < pow10(8))
                }),
                failures == spec_failure_count(
                    models.subrange(0, i as int),
                    outcomes@.subrange(0, i as int),
                ),
            decreases steps@.len() - i,
        {
            proof {
                assert(models.subrange(0, i + 1).drop_last() =~= models.subrange(0, i as int));
                assert(outcomes@.subrange(0, i + 1).drop_last() =~= outcomes@.subrange(
                    0,
                    i as int,
                ));
                assert(models.subrange(0, i + 1).last() == models[i as int]);
                assert(outcomes@.subrange(0, i + 1).last() == outcomes@[i as int]);
                assert(models[i as int] == steps@[i as int]@);
            }
            match &steps[i] {
                LinkStep::Link { kind, source, target } => {
                    if outcomes[i] {
                        let id = random_id_num(8);
                        let fi = FileInfo::new(
                            id,
                            kind.label().to_owned(),
                            source.clone(),
                            target.clone(),
                        );
                        fis.push(fi);
                    } else {
                        failures = failures + 1;
                    }
                },
                LinkStep::MakeDir { .. } => {},
            }
            i = i + 1;
        }
        proof {
            assert(models.subrange(0, models.len() as int) =~= models);
            assert(outcomes@.subrange(0, outcomes@.len() as int) =~= outcomes@);
        }
        let id = random_id(6);
        let source_root = parent_of(self.source[0].as_str());
        let time = now_string();
        let mut ds = FileSave::new(
            id,
            self.link_name.clone(),
            source_root,
            self.target_path.clone(),
            self.type_.label().to_owned(),
            time,
        );
        ds.set_files(fis);
        ds.save(db)?;
        Ok((ds, failures))
    }
}

} // verus!
