//! A virtual file system: archives and directories, searched newest first for a file.
//!
//! The search is decided here: an archive that holds the file ends it, and a directory is a
//! place the caller looks in, in turn.

use vstd::prelude::*;
use crate::pak::Pak;

verus! {

/// Why the file system could not do what was asked.
#[derive(Clone, Debug, PartialEq, Eq)]
pub enum VfsErrorKind {
    /// The archive at this path could not be loaded.
    PakfileNotLoaded { path: String },
    /// No component holds this file.
    NoSuchFile { path: String },
}

/// A component of the file system.
pub enum VfsComponent {
    Pak(Pak),
    Directory(String),
}

/// What a component holds, as far as a search goes.
pub enum ComponentView {
    Pak(Map<Seq<char>, Seq<u8>>),
    Directory(Seq<char>),
}

/// A place where a file may be found.
pub enum VfsSource<'a> {
    /// The file's data, in an archive.
    PakFile(&'a [u8]),
    /// A directory to look in for the file.
    Directory(String),
}

/// A place where a file may be found, as data or as the directory's path.
pub enum SourceView {
    PakFile(Seq<u8>),
    Directory(Seq<char>),
}

/// The places to look for `vp` in, in order: the components from the newest, each directory,
/// up to and with the first archive that holds the file.
pub open spec fn lookup(cs: Seq<ComponentView>, vp: Seq<char>) -> Seq<SourceView>
    decreases cs.len(),
{
    if cs.len() == 0 {
        Seq::empty()
    } else {
        match cs.last() {
            ComponentView::Pak(m) => if m.contains_key(vp) {
                seq![SourceView::PakFile(m[vp])]
            } else {
                lookup(cs.drop_last(), vp)
            },
            ComponentView::Directory(d) => seq![SourceView::Directory(d)] + lookup(cs.drop_last(), vp),
        }
    }
}

/// What a component holds.
pub open spec fn component_view(c: VfsComponent) -> ComponentView {
    match c {
        VfsComponent::Pak(p) => ComponentView::Pak(p@),
        VfsComponent::Directory(d) => ComponentView::Directory(d@),
    }
}

/// A place, as data or path.
pub open spec fn source_view(s: VfsSource) -> SourceView {
    match s {
        VfsSource::PakFile(d) => SourceView::PakFile(d@),
        VfsSource::Directory(d) => SourceView::Directory(d@),
    }
}

/// The file system.
pub struct Vfs {
    components: Vec<VfsComponent>,
}

impl View for Vfs {
    type V = Seq<ComponentView>;

    closed spec fn view(&self) -> Seq<ComponentView> {
        self.components@.map_values(|c: VfsComponent| component_view(c))
    }
}

impl Vfs {
    /// Every archive is well formed.
    pub closed spec fn wf(&self) -> bool {
        forall|i: int| 0 <= i < self.components@.len() ==> (#[trigger] self.components@[i] matches VfsComponent::Pak(p) ==> p.wf())
    }

    /// An empty file system.
    pub fn new() -> (r: Vfs)
        ensures
            r.wf(),
            r@ == Seq::<ComponentView>::empty(),
    {
        let r = Vfs { components: Vec::new() };
        assert(r@ =~= Seq::<ComponentView>::empty());
        r
    }

    /// Adds an archive, searched before the components added earlier.
    pub fn add_pak(&mut self, pak: Pak)
        requires
            old(self).wf(),
            pak.wf(),
        ensures
            final(self).wf(),
            final(self)@ == old(self)@.push(ComponentView::Pak(pak@)),
    {
        let ghost v = pak@;
        self.components.push(VfsComponent::Pak(pak));
        assert(self@ =~= old(self)@.push(ComponentView::Pak(v)));
    }

    /// Adds a directory, searched before the components added earlier.
    pub fn add_directory(&mut self, path: &str) -> (r: Result<(), VfsErrorKind>)
        requires
            old(self).wf(),
        ensures
            r is Ok,
            final(self).wf(),
            final(self)@ == old(self)@.push(ComponentView::Directory(path@)),
    {
        let p = path.to_owned();
        self.components.push(VfsComponent::Directory(p));
        assert(self@ =~= old(self)@.push(ComponentView::Directory(path@)));
        Ok(())
    }

    /// The places to look for the file `vp` in, in order.
    pub fn sources(&self, vp: &str) -> (r: Vec<VfsSource<'_>>)
        requires
            self.wf(),
        ensures
            r@.map_values(|s: VfsSource| source_view(s)) == lookup(self@, vp@),
    {
        let mut r: Vec<VfsSource> = Vec::new();
        let mut i: usize = self.components.len();
        let ghost cs = self@;
        assert(cs.take(cs.len() as int) =~= cs);
        while i > 0
            invariant
                i <= self.components@.len(),
                cs == self@,
                self.wf(),
                r@.map_values(|s: VfsSource| source_view(s)) + lookup(cs.take(i as int), vp@) == lookup(cs, vp@),
            decreases i,
        {
            let ghost before = r@.map_values(|s: VfsSource| source_view(s));
            let ghost t = cs.take(i as int);
            assert(t.drop_last() =~= cs.take(i - 1));
            assert(t.last() == component_view(self.components@[i - 1]));
            match &self.components[i - 1] {
                VfsComponent::Pak(p) => {
                    assert(p.wf());
                    match p.open(vp) {
                        Ok(d) => {
                            r.push(VfsSource::PakFile(d));
                            assert(r@.map_values(|s: VfsSource| source_view(s)) =~= before + lookup(t, vp@));
                            assert(lookup(cs.take(0), vp@) =~= Seq::<SourceView>::empty()) by {
                                assert(cs.take(0) =~= Seq::<ComponentView>::empty());
                            }
                            assert(r@.map_values(|s: VfsSource| source_view(s)) + lookup(cs.take(0), vp@) =~= lookup(cs, vp@));
                            return r;
                        },
                        Err(_) => {},
                    }
                },
                VfsComponent::Directory(d) => {
                    let dc = d.clone();
                    r.push(VfsSource::Directory(dc));
                    assert(r@.map_values(|s: VfsSource| source_view(s)) =~= before + seq![SourceView::Directory(d@)]);
                },
            }
            i = i - 1;
        }
        assert(cs.take(0) =~= Seq::<ComponentView>::empty());
        assert(r@.map_values(|s: VfsSource| source_view(s)) + Seq::<SourceView>::empty() =~= r@.map_values(|s: VfsSource| source_view(s)));
        r
    }
}

/// An archive added after the others, and holding the file, is where the file is found.
pub proof fn lemma_newest_pak_wins(cs: Seq<ComponentView>, m: Map<Seq<char>, Seq<u8>>, vp: Seq<char>)
    requires
        m.contains_key(vp),
    ensures
        lookup(cs.push(ComponentView::Pak(m)), vp) == seq![SourceView::PakFile(m[vp])],
{
    assert(cs.push(ComponentView::Pak(m)).last() == ComponentView::Pak(m));
}

/// A directory added after the others is looked in first, before the places the others give.
pub proof fn lemma_newest_directory_first(cs: Seq<ComponentView>, d: Seq<char>, vp: Seq<char>)
    ensures
        lookup(cs.push(ComponentView::Directory(d)), vp) == seq![SourceView::Directory(d)] + lookup(cs, vp),
{
    assert(cs.push(ComponentView::Directory(d)).drop_last() =~= cs);
}

} // verus!
