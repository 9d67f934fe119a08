//! The images that an installation holds.
use crate::error::Error;
use crate::image::reference;
use crate::image::reference::ImageReference;
use crate::text;
use vstd::prelude::*;

verus! {

/// One image.
#[derive(Clone, Debug, PartialEq)]
pub struct ImageEntry {
    /// Full image reference.
    pub reference: String,
    /// Name that can stand in a path; tells the images apart.
    pub local_name: String,
    /// Where the image is stored.
    pub disk_path: String,
    /// Disk size in MiB.
    pub size_mib: u64,
    /// When the image was pulled.
    pub pulled_at: String,
    /// Id of the base volume in the dm-thin pool.
    pub thin_id: Option<u64>,
}

/// What an [`ImageEntry`] says.
pub struct Entry {
    pub reference: Seq<char>,
    pub local_name: Seq<char>,
    pub disk_path: Seq<char>,
    pub size_mib: u64,
    pub pulled_at: Seq<char>,
    pub thin_id: Option<u64>,
}

impl View for ImageEntry {
    type V = Entry;

    open spec fn view(&self) -> Entry {
        Entry {
            reference: self.reference@,
            local_name: self.local_name@,
            disk_path: self.disk_path@,
            size_mib: self.size_mib,
            pulled_at: self.pulled_at@,
            thin_id: self.thin_id,
        }
    }
}

/// The images of an installation, in the order in which they came.
#[derive(Clone, Debug, PartialEq)]
pub struct ImageRegistry {
    pub images: Vec<ImageEntry>,
}

impl View for ImageRegistry {
    type V = Seq<Entry>;

    open spec fn view(&self) -> Seq<Entry> {
        Seq::new(self.images@.len(), |i: int| self.images@[i]@)
    }
}

/// Whether `i` is the first image of that name.
pub open spec fn first_named(v: Seq<Entry>, name: Seq<char>, i: int) -> bool {
    &&& 0 <= i < v.len()
    &&& v[i].local_name == name
    &&& forall|j: int| 0 <= j < i ==> (#[trigger] v[j]).local_name != name
}

/// Whether there is an image of that name.
pub open spec fn holds(v: Seq<Entry>, name: Seq<char>) -> bool {
    exists|i: int| 0 <= i < v.len() && (#[trigger] v[i]).local_name == name
}

/// No two images have the same name.
pub open spec fn distinct(v: Seq<Entry>) -> bool {
    forall|i: int, j: int|
        0 <= i < j < v.len() ==> (#[trigger] v[i]).local_name != (#[trigger] v[j]).local_name
}

/// The images after the first one of that name has left.
pub open spec fn removed(v: Seq<Entry>, name: Seq<char>, w: Seq<Entry>) -> bool {
    if holds(v, name) {
        exists|i: int| first_named(v, name, i) && w == #[trigger] v.remove(i)
    } else {
        w == v
    }
}

/// The images of a registry that is loaded: those that were stored, or none.
pub open spec fn loaded(stored: Option<Seq<Entry>>) -> Seq<Entry> {
    match stored {
        Some(v) => v,
        None => Seq::empty(),
    }
}

fn copy_entry(e: &ImageEntry) -> (r: ImageEntry)
    ensures
        r@ == e@,
{
    ImageEntry {
        reference: e.reference.clone(),
        local_name: e.local_name.clone(),
        disk_path: e.disk_path.clone(),
        size_mib: e.size_mib,
        pulled_at: e.pulled_at.clone(),
        thin_id: e.thin_id,
    }
}

/// A registry that was saved loads back the same, with every image and all that is
/// known of it, in the same order; where none was ever saved, an empty one loads.
/// `saved` is what [`ImageRegistry::save`] hands out, `back` what
/// [`ImageRegistry::load`] makes of what is stored.
pub proof fn law_saved_registry_loads_back(
    registry: ImageRegistry,
    saved: ImageRegistry,
    back: ImageRegistry,
    fresh: ImageRegistry,
)
    requires
        saved@ == registry@,
        back@ == loaded(Some(saved@)),
        fresh@ == loaded(None),
    ensures
        back@ == registry@,
        fresh@.len() == 0,
{
}

impl Default for ImageRegistry {
    fn default() -> (r: Self)
        ensures
            r@ == Seq::<Entry>::empty(),
    {
        let r = ImageRegistry { images: Vec::new() };
        assert(r@ =~= Seq::<Entry>::empty());
        r
    }
}

impl ImageRegistry {
    /// The registry that was stored; an empty one where none was.
    pub fn load(stored: Option<ImageRegistry>) -> (r: Self)
        ensures
            r@ == loaded(
                match stored {
                    Some(s) => Some(s@),
                    None => None,
                },
            ),
    {
        match stored {
            Some(s) => s,
            None => ImageRegistry::default(),
        }
    }

    /// The registry to be stored: every image, with all that is known of it, in the
    /// same order.
    pub fn save(&self) -> (r: ImageRegistry)
        ensures
            r@ == self@,
    {
        let mut images: Vec<ImageEntry> = Vec::new();
        let mut i: usize = 0;
        while i < self.images.len()
            invariant
                i <= self.images.len(),
                images.len() == i,
                forall|j: int| 0 <= j < i ==> (#[trigger] images@[j])@ == self@[j],
            decreases self.images.len() - i,
        {
            let e = copy_entry(&self.images[i]);
            assert(self@[i as int] == self.images@[i as int]@);
            images.push(e);
            i += 1;
        }
        let r = ImageRegistry { images };
        assert(r@ =~= self@);
        r
    }

    fn position(&self, local_name: &str) -> (r: Option<usize>)
        ensures
            match r {
                Some(i) => first_named(self@, local_name@, i as int),
                None => !holds(self@, local_name@),
            },
    {
        let mut i: usize = 0;
        while i < self.images.len()
            invariant
                i <= self.images.len(),
                forall|j: int| 0 <= j < i ==> (#[trigger] self@[j]).local_name != local_name@,
            decreases self.images.len() - i,
        {
            assert(self@[i as int] == self.images@[i as int]@);
            if text::same(self.images[i].local_name.as_str(), local_name) {
                return Some(i);
            }
            i += 1;
        }
        None
    }

    /// Adds an image in place of the one of the same name.
    pub fn add(&mut self, entry: ImageEntry)
        ensures
            exists|w: Seq<Entry>| #[trigger]
                removed(old(self)@, entry@.local_name, w) && final(self)@ == w.push(entry@),
    {
        let name = entry.local_name.clone();
        let gone = self.remove(name.as_str());
        let ghost w = self@;
        self.images.push(entry);
        assert(self@ =~= w.push(entry@));
        assert(removed(old(self)@, entry@.local_name, w));
    }

    /// Removes the image of that name, and returns it.
    pub fn remove(&mut self, local_name: &str) -> (r: Option<ImageEntry>)
        ensures
            removed(old(self)@, local_name@, final(self)@),
            match r {
                Some(e) => exists|i: int|
                    #![trigger old(self)@[i]]
                    first_named(old(self)@, local_name@, i) && e@ == old(self)@[i],
                None => !holds(old(self)@, local_name@),
            },
    {
        match self.position(local_name) {
            None => None,
            Some(i) => {
                let ghost before = self@;
                let e = self.images.remove(i);
                assert(e@ == before[i as int]);
                assert(self@ =~= before.remove(i as int));
                assert(before[i as int].local_name == local_name@);
                assert(holds(before, local_name@));
                Some(e)
            },
        }
    }

    /// The image of that name.
    pub fn get(&self, local_name: &str) -> (r: Option<&ImageEntry>)
        ensures
            match r {
                Some(e) => exists|i: int|
                    #![trigger self@[i]]
                    first_named(self@, local_name@, i) && e@ == self@[i],
                None => !holds(self@, local_name@),
            },
    {
        match self.position(local_name) {
            None => None,
            Some(i) => {
                assert(self@[i as int] == self.images@[i as int]@);
                Some(&self.images[i])
            },
        }
    }

    /// Whether there is an image of that name.
    pub fn contains(&self, local_name: &str) -> (r: bool)
        ensures
            r == holds(self@, local_name@),
    {
        match self.position(local_name) {
            None => false,
            Some(i) => {
                assert(self@[i as int].local_name == local_name@);
                true
            },
        }
    }

    /// The image that a user means by a reference: the one that the reference
    /// names, else the one of that very name.
    pub fn find_by_reference(&self, reference: &str) -> (r: Result<Option<&ImageEntry>, Error>)
        ensures
            match r {
                Err(e) => reference@.len() == 0 && (e matches Error::Image(m) && m@
                    == "empty image reference"@),
                Ok(found) => {
                    let by_reference = reference::named(reference@).local_text();
                    let name = if holds(self@, by_reference) {
                        by_reference
                    } else {
                        reference@
                    };
                    &&& reference@.len() > 0
                    &&& match found {
                        Some(e) => exists|i: int|
                            #![trigger self@[i]]
                            first_named(self@, name, i) && e@ == self@[i],
                        None => !holds(self@, name),
                    }
                },
            },
    {
        let parsed = match ImageReference::parse(reference) {
            Ok(p) => p,
            Err(e) => return Err(e),
        };
        let name = parsed.local_name();
        match self.get(name.as_str()) {
            Some(e) => {
                proof {
                    let i = choose|i: int|
                        #![trigger self@[i]]
                        first_named(self@, name@, i) && e@ == self@[i];
                    assert(self@[i].local_name == name@);
                }
                Ok(Some(e))
            },
            None => Ok(self.get(reference)),
        }
    }

    /// Number of images.
    pub fn len(&self) -> (r: usize)
        ensures
            r == self@.len(),
    {
        self.images.len()
    }

    /// Whether there is no image.
    pub fn is_empty(&self) -> (r: bool)
        ensures
            r == (self@.len() == 0),
    {
        self.images.len() == 0
    }
}

/// The entry for an image that was pulled at the given time.
pub fn new_entry(
    reference: &ImageReference,
    disk_path: &str,
    size_mib: u64,
    thin_id: Option<u64>,
    pulled_at: &str,
) -> (r: ImageEntry)
    ensures
        r@ == (Entry {
            reference: reference@.text(),
            local_name: reference@.local_text(),
            disk_path: disk_path@,
            size_mib,
            pulled_at: pulled_at@,
            thin_id,
        }),
{
    ImageEntry {
        reference: reference.to_string(),
        local_name: reference.local_name(),
        disk_path: disk_path.to_owned(),
        size_mib,
        pulled_at: pulled_at.to_owned(),
        thin_id,
    }
}

/// The entry for an image that was built here at the given time. Its reference is
/// marked as local.
pub fn new_build_entry(
    name: &str,
    local_name: &str,
    disk_path: &str,
    size_mib: u64,
    thin_id: Option<u64>,
    pulled_at: &str,
) -> (r: ImageEntry)
    ensures
        r@ == (Entry {
            reference: "local:"@ + name@,
            local_name: local_name@,
            disk_path: disk_path@,
            size_mib,
            pulled_at: pulled_at@,
            thin_id,
        }),
{
    ImageEntry {
        reference: text::cat2("local:", name),
        local_name: local_name.to_owned(),
        disk_path: disk_path.to_owned(),
        size_mib,
        pulled_at: pulled_at.to_owned(),
        thin_id,
    }
}

/// Removes the image of that name, and returns it; fails where there is none.
pub fn remove_image(registry: &mut ImageRegistry, local_name: &str) -> (r: Result<
    ImageEntry,
    Error,
>)
    ensures
        removed(old(registry)@, local_name@, final(registry)@),
        match r {
            Ok(e) => exists|i: int|
                #![trigger old(registry)@[i]]
                first_named(old(registry)@, local_name@, i) && e@ == old(registry)@[i],
            Err(e) => !holds(old(registry)@, local_name@) && (e matches Error::ImageNotFound { name }
                && name@ == local_name@),
        },
{
    match registry.remove(local_name) {
        Some(e) => Ok(e),
        None => Err(Error::ImageNotFound { name: local_name.to_owned() }),
    }
}

/// Adding an image keeps the names different, and the image is found under its
/// name afterwards; an image of another name stays.
pub proof fn law_add(v: Seq<Entry>, w: Seq<Entry>, e: Entry, k: int)
    requires
        distinct(v),
        removed(v, e.local_name, w),
    ensures
        distinct(w.push(e)),
        holds(w.push(e), e.local_name),
        0 <= k < v.len() && v[k].local_name != e.local_name ==> w.push(e).contains(v[k]),
{
    let u = w.push(e);
    assert(u[w.len() as int].local_name == e.local_name);
    if holds(v, e.local_name) {
        let i = choose|i: int| first_named(v, e.local_name, i) && w == #[trigger] v.remove(i);
        assert forall|a: int, b: int| 0 <= a < b < u.len() implies (#[trigger] u[a]).local_name != (
        #[trigger] u[b]).local_name by {
            let x = if a < i {
                a
            } else {
                a + 1
            };
            assert(u[a] == v[x]);
            if b < w.len() {
                let y = if b < i {
                    b
                } else {
                    b + 1
                };
                assert(u[b] == v[y]);
            } else {
                assert(u[b] == e);
                if x < i {
                    assert(v[x].local_name != v[i].local_name);
                } else {
                    assert(v[i].local_name != v[x].local_name);
                }
            }
        }
        if 0 <= k < v.len() && v[k].local_name != e.local_name {
            assert(k != i);
            if k < i {
                assert(u[k] == v[k]);
            } else {
                assert(u[k - 1] == v[k]);
            }
        }
    } else {
        assert forall|a: int, b: int| 0 <= a < b < u.len() implies (#[trigger] u[a]).local_name != (
        #[trigger] u[b]).local_name by {
            assert(u[a] == v[a]);
            if b < v.len() {
                assert(u[b] == v[b]);
            }
        }
        if 0 <= k < v.len() {
            assert(u[k] == v[k]);
        }
    }
}

/// After a removal there is no image of that name, and every other one stays.
pub proof fn law_remove(v: Seq<Entry>, w: Seq<Entry>, name: Seq<char>, k: int)
    requires
        distinct(v),
        removed(v, name, w),
    ensures
        distinct(w),
        !holds(w, name),
        0 <= k < v.len() && v[k].local_name != name ==> w.contains(v[k]),
{
    if holds(v, name) {
        let i = choose|i: int| first_named(v, name, i) && w == #[trigger] v.remove(i);
        assert forall|a: int| 0 <= a < w.len() implies (#[trigger] w[a]).local_name != name by {
            let x = if a < i {
                a
            } else {
                a + 1
            };
            assert(w[a] == v[x]);
            if x < i {
                assert(v[x].local_name != v[i].local_name);
            } else {
                assert(v[i].local_name != v[x].local_name);
            }
        }
        assert forall|a: int, b: int| 0 <= a < b < w.len() implies (#[trigger] w[a]).local_name != (
        #[trigger] w[b]).local_name by {
            let x = if a < i {
                a
            } else {
                a + 1
            };
            let y = if b < i {
                b
            } else {
                b + 1
            };
            assert(w[a] == v[x] && w[b] == v[y]);
        }
        if 0 <= k < v.len() && v[k].local_name != name {
            if k < i {
                assert(w[k] == v[k]);
            } else {
                assert(w[k - 1] == v[k]);
            }
        }
    } else if 0 <= k < v.len() {
        assert(w[k] == v[k]);
    }
}

} // verus!
