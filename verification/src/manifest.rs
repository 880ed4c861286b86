//! The remote file manifest: typed records of the authoritative file
//! list, and the attribution of manifest names to an engine namespace.
//!
//! A manifest entry's `name` is a path namespaced by an engine prefix
//! (`"iw4/iw4x.exe"` belongs to engine `"iw4"`). The local path of an
//! entry is its name with the engine prefix and separator stripped.

use vstd::prelude::*;

use crate::text::is_prefix_of;

verus! {

/// Mathematical image of a manifest entry.
pub ghost struct EntryV {
    pub name: Seq<char>,
    pub size: u64,
    pub hash: Seq<char>,
}

/// One record of the remote file list: a namespaced path, an advisory
/// byte length, and the content digest of the authoritative file.
pub struct CdnFile {
    pub name: String,
    pub size: u64,
    pub hash: String,
}

impl View for CdnFile {
    type V = EntryV;

    open spec fn view(&self) -> EntryV {
        EntryV { name: self.name@, size: self.size, hash: self.hash@ }
    }
}

/// Image of a whole manifest.
pub open spec fn entries_view(m: Seq<CdnFile>) -> Seq<EntryV> {
    m.map_values(|e: CdnFile| e@)
}

/// The namespace prefix of an engine: the engine identifier followed
/// by the path separator.
pub open spec fn engine_prefix(engine: Seq<char>) -> Seq<char> {
    engine.push('/')
}

/// Does a manifest name belong to an engine's namespace?
pub open spec fn belongs_to_engine(name: Seq<char>, engine: Seq<char>) -> bool {
    is_prefix_of(engine_prefix(engine), name)
}

/// Local path of a manifest name relative to the target directory:
/// the name with the engine prefix stripped.
pub open spec fn rel_path_of(name: Seq<char>, engine: Seq<char>) -> Seq<char> {
    name.skip(engine.len() + 1 as int)
}

/// A name in an engine's namespace is exactly the engine prefix
/// followed by its local path.
pub proof fn lemma_belongs_decompose(name: Seq<char>, engine: Seq<char>)
    requires
        belongs_to_engine(name, engine),
    ensures
        name == engine_prefix(engine) + rel_path_of(name, engine),
{
    assert(name =~= engine_prefix(engine) + rel_path_of(name, engine));
}

/// Names in one engine's namespace agree exactly when their local
/// paths agree.
pub proof fn lemma_rel_path_injective(a: Seq<char>, b: Seq<char>, engine: Seq<char>)
    requires
        belongs_to_engine(a, engine),
        belongs_to_engine(b, engine),
        rel_path_of(a, engine) == rel_path_of(b, engine),
    ensures
        a == b,
{
    lemma_belongs_decompose(a, engine);
    lemma_belongs_decompose(b, engine);
}

/// Does `name` start with `engine` followed by the separator?
pub fn entry_belongs(name: &str, engine: &str) -> (r: bool)
    ensures
        r == belongs_to_engine(name@, engine@),
{
    let prefix = String::from_str(engine).concat("/");
    proof {
        reveal_strlit("/");
        assert(prefix@ =~= engine_prefix(engine@));
    }
    crate::text::str_starts_with(name, prefix.as_str())
}

/// Strip the engine prefix from a manifest name, giving the path of
/// the local copy relative to the target directory. Names outside the
/// engine's namespace have no local path.
pub fn local_rel_path(name: &str, engine: &str) -> (r: Option<String>)
    ensures
        belongs_to_engine(name@, engine@) ==> (r matches Some(p) && p@ == rel_path_of(
            name@,
            engine@,
        )),
        !belongs_to_engine(name@, engine@) ==> r is None,
{
    if entry_belongs(name, engine) {
        let n: usize = name.unicode_len();
        let k: usize = engine.unicode_len();
        let rel = name.substring_char(k + 1, n);
        proof {
            assert(rel@ =~= rel_path_of(name@, engine@));
        }
        Some(String::from_str(rel))
    } else {
        None
    }
}

} // verus!
