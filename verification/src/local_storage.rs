use vstd::prelude::*;
use crate::text::owned;

verus! {

/// A JSON document kept in a file, with a generator `G` for the value used where the file
/// cannot be read.
pub struct LocalStorage<G> {
    path: String,
    default_generator: G,
}

impl<T, G: Fn() -> T> LocalStorage<G> {
    /// The path of the file.
    pub closed spec fn file_path(&self) -> Seq<char> {
        self.path@
    }

    /// The generator of the default value.
    pub closed spec fn generator(&self) -> G {
        self.default_generator
    }

    /// A store for the file at `path`, whose default value `default_generator` makes.
    pub fn new(path: &str, default_generator: G) -> (s: Self)
        ensures
            s.file_path() == path@,
            s.generator() == default_generator,
    {
        LocalStorage { path: owned(path), default_generator }
    }

    /// The document, given what could be read from the file: what was read, or else a
    /// fresh default value.
    pub fn load(&self, stored: Option<T>) -> (r: T)
        requires
            stored is None ==> call_requires(self.generator(), ()),
        ensures
            stored is Some ==> r == stored->Some_0,
            stored is None ==> call_ensures(self.generator(), (), r),
    {
        match stored {
            Some(data) => data,
            None => (self.default_generator)(),
        }
    }

    /// The document to save after `updater` has changed what was loaded, given what could
    /// be read from the file.
    pub fn update<U: FnOnce(T) -> T>(&self, stored: Option<T>, updater: U) -> (r: T)
        requires
            stored is None ==> call_requires(self.generator(), ()),
            forall|d: T| call_requires(updater, (d,)),
        ensures
            stored is Some ==> call_ensures(updater, (stored->Some_0,), r),
            stored is None ==> exists|d: T|
                call_ensures(self.generator(), (), d) && #[trigger] call_ensures(updater, (d,), r),
    {
        let data = self.load(stored);
        updater(data)
    }

    /// The path of the file.
    pub fn get_path(&self) -> (p: &str)
        ensures
            p@ == self.file_path(),
    {
        self.path.as_str()
    }
}

} // verus!
