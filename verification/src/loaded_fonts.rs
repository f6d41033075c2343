use crate::conn::LoadedFont;
use crate::conn_view::{font_views, FontView};
use vstd::prelude::*;

verus! {

/// A `HashMap` of hashbrown from the paths of bank files to places. What it
/// holds is known only by `path_index_contents`.
#[verifier::external_body]
pub struct PathIndex {
    map: hashbrown::HashMap<String, usize>,
}

/// What a `PathIndex` holds: for each path in it, the place that was stored
/// with it.
pub uninterp spec fn path_index_contents(index: PathIndex) -> Map<Seq<char>, usize>;

/// `HashMap::new` of hashbrown makes an empty map.
#[verifier::external_body]
fn path_index_new() -> (created: PathIndex)
    ensures
        path_index_contents(created) == (Map::<Seq<char>, usize>::empty()),
{
    PathIndex { map: hashbrown::HashMap::new() }
}

/// `HashMap::insert` of hashbrown stores the value under the key, in place of
/// the value that was stored under it, if any.
#[verifier::external_body]
fn path_index_insert(index: PathIndex, path: String, place: usize) -> (after: PathIndex)
    ensures
        path_index_contents(after) == path_index_contents(index).insert(path@, place),
{
    let mut index = index;
    index.map.insert(path, place);
    index
}

/// `HashMap::get` of hashbrown returns the value that is stored under the
/// key, if any.
#[verifier::external_body]
fn path_index_get(index: &PathIndex, path: &String) -> (place: Option<usize>)
    ensures
        match place {
            Some(p) => path_index_contents(*index).contains_key(path@) && p == path_index_contents(
                *index,
            )[path@],
            None => !path_index_contents(*index).contains_key(path@),
        },
{
    index.map.get(path).copied()
}

/// Whether the file at `place` is the first of `fonts` with the path `path`.
pub open spec fn is_first_with(fonts: Seq<FontView>, path: Seq<char>, place: int) -> bool {
    &&& 0 <= place < fonts.len()
    &&& fonts[place].path == path
    &&& forall|k: int| 0 <= k < place ==> (#[trigger] fonts[k]).path != path
}

/// `places` holds the paths of the files of `fonts`, each with the place of
/// the first file that has it, and nothing else.
pub open spec fn is_index_of(places: Map<Seq<char>, usize>, fonts: Seq<FontView>) -> bool {
    &&& forall|i: int| 0 <= i < fonts.len() ==> places.contains_key((#[trigger] fonts[i]).path)
    &&& forall|path: Seq<char>| #[trigger]
        places.contains_key(path) ==> is_first_with(fonts, path, places[path] as int)
}

/// The loaded bank files, in the order of their loading, each found by its
/// path.
pub struct LoadedFonts {
    fonts: Vec<LoadedFont>,
    places: PathIndex,
}

impl View for LoadedFonts {
    type V = Seq<FontView>;

    closed spec fn view(&self) -> Seq<FontView> {
        font_views(self.fonts@)
    }
}

impl LoadedFonts {
    #[verifier::type_invariant]
    spec fn indexed(&self) -> bool {
        is_index_of(path_index_contents(self.places), font_views(self.fonts@))
    }

    /// No file.
    pub fn new() -> (fonts: LoadedFonts)
        ensures
            fonts@ == Seq::<FontView>::empty(),
    {
        let fonts = LoadedFonts { fonts: Vec::new(), places: path_index_new() };
        proof {
            assert(fonts@ =~= Seq::<FontView>::empty());
        }
        fonts
    }

    /// The number of files.
    pub fn len(&self) -> (n: usize)
        ensures
            n == self@.len(),
    {
        self.fonts.len()
    }

    /// The file at `place`.
    pub fn get(&self, place: usize) -> (font: &LoadedFont)
        requires
            place < self@.len(),
        ensures
            font@ == self@[place as int],
    {
        &self.fonts[place]
    }

    /// The place of the first file with the path `path`, if there is one.
    pub fn find(&self, path: &String) -> (place: Option<usize>)
        ensures
            match place {
                Some(i) => is_first_with(self@, path@, i as int),
                None => forall|i: int| 0 <= i < self@.len() ==> (#[trigger] self@[i]).path != path@,
            },
    {
        proof {
            use_type_invariant(self);
        }
        path_index_get(&self.places, path)
    }

    /// The files with `font` behind them.
    pub fn add(self, font: LoadedFont) -> (after: LoadedFonts)
        ensures
            after@ == self@.push(font@),
    {
        proof {
            use_type_invariant(&self);
        }
        let ghost before = font_views(self.fonts@);
        let ghost added = font@;
        let LoadedFonts { mut fonts, places } = self;
        let places = match path_index_get(&places, &font.path) {
            Some(_) => places,
            None => path_index_insert(places, font.path.clone(), fonts.len()),
        };
        fonts.push(font);
        proof {
            let after = font_views(fonts@);
            assert(after =~= before.push(added));
            assert forall|path: Seq<char>| #[trigger]
                path_index_contents(places).contains_key(path) implies is_first_with(
                after,
                path,
                path_index_contents(places)[path] as int,
            ) by {
                let place = path_index_contents(places)[path] as int;
                if place < before.len() {
                    assert(is_first_with(before, path, place));
                    assert(after[place] == before[place]);
                    assert forall|k: int| 0 <= k < place implies (#[trigger] after[k]).path
                        != path by {
                        assert(after[k] == before[k]);
                    }
                } else {
                    assert forall|k: int| 0 <= k < place implies (#[trigger] after[k]).path
                        != path by {
                        assert(after[k] == before[k]);
                    }
                }
            }
            assert forall|i: int| 0 <= i < after.len() implies path_index_contents(
                places,
            ).contains_key((#[trigger] after[i]).path) by {
                if i < before.len() {
                    assert(after[i] == before[i]);
                }
            }
        }
        LoadedFonts { fonts, places }
    }
}

} // verus!
