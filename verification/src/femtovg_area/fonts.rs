//! The fonts that texts are drawn with.
use vstd::prelude::*;

use crate::paths::{components_of, path_components, same_components, texts_of};

verus! {

/// The fonts in the order in which they are tried. They are set once.
#[derive(Debug)]
pub struct FontStack<F> {
    pub fonts: Option<Vec<F>>,
}

impl<F> FontStack<F> {
    /// The fonts to draw with; none before they are set.
    pub open spec fn spec_fonts(self) -> Seq<F> {
        match self.fonts {
            Some(fonts) => fonts@,
            None => Seq::empty(),
        }
    }

    pub fn new() -> (r: Self)
        ensures
            r.fonts is None,
    {
        FontStack { fonts: None }
    }
}

/// Sets the fonts. Fonts that were set before stay.
pub fn set_font_stack<F>(stack: &mut FontStack<F>, fonts: Vec<F>)
    ensures
        match old(stack).fonts {
            Some(_) => *final(stack) == *old(stack),
            None => final(stack).fonts == Some(fonts),
        },
{
    if stack.fonts.is_none() {
        stack.fonts = Some(fonts);
    }
}

/// The fonts to draw with.
pub fn font_stack<F>(stack: &FontStack<F>) -> (r: &[F])
    ensures
        r@ == stack.spec_fonts(),
{
    match &stack.fonts {
        Some(fonts) => fonts.as_slice(),
        None => {
            let none: &[F] = &[];
            assert(none@ =~= Seq::empty());
            none
        },
    }
}

/// The font that single line texts start with: the one in use, or else the first
/// of the stack.
pub fn default_font<F: Copy>(current: Option<F>, stack: &FontStack<F>) -> (r: Option<F>)
    ensures
        r == match current {
            Some(font) => Some(font),
            None => if stack.spec_fonts().len() > 0 {
                Some(stack.spec_fonts()[0])
            } else {
                None
            },
        },
{
    if current.is_some() {
        return current;
    }
    let fonts = font_stack(stack);
    if fonts.len() > 0 {
        Some(fonts[0])
    } else {
        None
    }
}

/// The font that is looked for next.
#[derive(Debug, Clone, Copy, PartialEq, Eq, Structural)]
pub enum FontStage {
    /// The configured font.
    Primary,
    /// The font that comes with the program.
    Bundled,
    /// The fallback font with this number.
    Fallback(usize),
}

/// Which fonts are loaded already, by the components of their paths and the numbers
/// of their faces, and which one is looked for next.
pub struct FontLoader<F> {
    pub loaded_paths: Vec<(Vec<String>, u32)>,
    pub fonts: Vec<F>,
    pub stage: FontStage,
}

/// The loader as a mathematical value: the faces that were asked for, by file and
/// number, the fonts in order, and the stage.
#[verifier::ext_equal]
pub struct FontState<F> {
    pub requested: Set<(Seq<Seq<char>>, u32)>,
    pub fonts: Seq<F>,
    pub stage: FontStage,
}

pub open spec fn face_of(entry: (Vec<String>, u32)) -> (Seq<Seq<char>>, u32) {
    (texts_of(entry.0@), entry.1)
}

/// The faces of the entries, in order.
pub open spec fn faces_of(entries: Seq<(Vec<String>, u32)>) -> Seq<(Seq<Seq<char>>, u32)> {
    entries.map_values(|entry: (Vec<String>, u32)| face_of(entry))
}

impl<F> View for FontLoader<F> {
    type V = FontState<F>;

    open spec fn view(&self) -> FontState<F> {
        FontState {
            requested: faces_of(self.loaded_paths@).to_set(),
            fonts: self.fonts@,
            stage: self.stage,
        }
    }
}

/// The number of a face within its file. A missing or negative number means the
/// first face.
pub open spec fn spec_face_index(index: Option<i32>) -> u32 {
    match index {
        Some(i) if i > 0 => i as u32,
        _ => 0,
    }
}

pub fn face_index(index: Option<i32>) -> (r: u32)
    ensures
        r == spec_face_index(index),
{
    match index {
        Some(i) => if i > 0 {
            i as u32
        } else {
            0
        },
        None => 0,
    }
}

impl<F> FontState<F> {
    pub open spec fn start() -> Self {
        FontState { requested: Set::empty(), fonts: Seq::empty(), stage: FontStage::Primary }
    }

    /// Once the fallback fonts are looked for, there is a font to draw with.
    pub open spec fn wf(self) -> bool {
        self.stage is Fallback ==> self.fonts.len() > 0
    }

    /// A face was found. Each face is loaded once, however its path is written.
    pub open spec fn found(self, path: Seq<char>, index: Option<i32>) -> (Self, Option<u32>) {
        let face = spec_face_index(index);
        let key = (path_components(path), face);
        if self.requested.contains(key) {
            (self, None)
        } else {
            (FontState { requested: self.requested.insert(key), ..self }, Some(face))
        }
    }

    /// The search of this stage is over, with or without a font. The bundled font
    /// is taken only if there is no other to begin with.
    pub open spec fn finished(self, font: Option<F>) -> Self {
        let fonts = match font {
            Some(font) => self.fonts.push(font),
            None => self.fonts,
        };
        FontState {
            fonts,
            stage: match self.stage {
                FontStage::Primary => if fonts.len() == 0 {
                    FontStage::Bundled
                } else {
                    FontStage::Fallback(0)
                },
                FontStage::Bundled => FontStage::Fallback(0),
                FontStage::Fallback(i) => FontStage::Fallback((i + 1) as usize),
            },
            ..self
        }
    }
}

impl<F> FontLoader<F> {
    pub fn new() -> (r: Self)
        ensures
            r@ == FontState::<F>::start(),
            r@.wf(),
    {
        let r = FontLoader {
            loaded_paths: Vec::new(),
            fonts: Vec::new(),
            stage: FontStage::Primary,
        };
        assert(r@.requested =~= Set::empty());
        r
    }

    /// What is looked for next, given the number of fallback fonts; nothing once
    /// all are done.
    pub fn next_stage(&self, fallback_count: usize) -> (r: Option<FontStage>)
        ensures
            r == match self@.stage {
                FontStage::Fallback(i) if i >= fallback_count => None,
                stage => Some(stage),
            },
    {
        match self.stage {
            FontStage::Fallback(i) => if i >= fallback_count {
                None
            } else {
                Some(self.stage)
            },
            _ => Some(self.stage),
        }
    }

    /// A face was found: gives its number if it is to be loaded, or nothing if it
    /// was asked for before.
    pub fn found(&mut self, path: String, index: Option<i32>) -> (r: Option<u32>)
        ensures
            (final(self)@, r) == old(self)@.found(path@, index),
    {
        let face = face_index(index);
        let components = components_of(path.as_str());
        let ghost key = (path_components(path@), face);
        let ghost faces = faces_of(self.loaded_paths@);
        let mut k: usize = 0;
        while k < self.loaded_paths.len()
            invariant
                k <= self.loaded_paths@.len(),
                *self == *old(self),
                face == spec_face_index(index),
                key == (path_components(path@), face),
                key == (texts_of(components@), face),
                faces == faces_of(self.loaded_paths@),
                forall|i: int| 0 <= i < k ==> faces[i] != key,
            decreases self.loaded_paths@.len() - k,
        {
            let entry = &self.loaded_paths[k];
            assert(faces[k as int] == face_of(*entry));
            if entry.1 == face && same_components(&entry.0, &components) {
                assert(faces[k as int] == key);
                assert(faces.to_set().contains(key));
                return None;
            }
            assert(faces[k as int] != key);
            k = k + 1;
        }
        assert(!faces.to_set().contains(key));
        self.loaded_paths.push((components, face));
        proof {
            let after = faces_of(self.loaded_paths@);
            assert(after =~= faces.push(key));
            assert(after.to_set() =~= faces.to_set().insert(key)) by {
                assert forall|f: (Seq<Seq<char>>, u32)|
                    faces.to_set().insert(key).contains(f) implies after.to_set().contains(f) by {
                    if f == key {
                        assert(after[faces.len() as int] == f);
                    } else {
                        let i = choose|i: int| 0 <= i < faces.len() && faces[i] == f;
                        assert(after[i] == f);
                    }
                }
            }
        }
        Some(face)
    }

    /// Ends the search of this stage. The font that comes with the program can
    /// always be loaded.
    pub fn finished(&mut self, font: Option<F>)
        requires
            old(self)@.wf(),
            old(self)@.stage is Bundled ==> font is Some,
            old(self)@.stage matches FontStage::Fallback(i) ==> i < usize::MAX,
        ensures
            final(self)@ == old(self)@.finished(font),
            final(self)@.wf(),
    {
        if let Some(font) = font {
            self.fonts.push(font);
        }
        self.stage = match self.stage {
            FontStage::Primary => if self.fonts.len() == 0 {
                FontStage::Bundled
            } else {
                FontStage::Fallback(0)
            },
            FontStage::Bundled => FontStage::Fallback(0),
            FontStage::Fallback(i) => FontStage::Fallback(i + 1),
        };
    }
}

/// A face that was asked for once is never loaded again, however its path is written
/// and whatever else is found in between.
pub proof fn lemma_face_is_loaded_once<F>(
    s: FontState<F>,
    path: Seq<char>,
    again: Seq<char>,
    index: Option<i32>,
    other_path: Seq<char>,
    other_index: Option<i32>,
    font: Option<F>,
)
    requires
        path_components(again) == path_components(path),
    ensures
        s.found(path, index).0.found(again, index).1 is None,
        s.requested.contains((path_components(path), spec_face_index(index))) ==> {
            let key = (path_components(path), spec_face_index(index));
            &&& s.found(again, index).1 is None
            &&& s.finished(font).requested.contains(key)
            &&& s.found(other_path, other_index).0.requested.contains(key)
        },
{
}

/// The loader after the searches for fallback fonts had these results.
pub open spec fn after_fallbacks<F>(s: FontState<F>, results: Seq<Option<F>>) -> FontState<F>
    decreases results.len(),
{
    if results.len() == 0 {
        s
    } else {
        after_fallbacks(s, results.drop_last()).finished(results.last())
    }
}

/// The fonts among the results, in order.
pub open spec fn found_fonts<F>(results: Seq<Option<F>>) -> Seq<F>
    decreases results.len(),
{
    if results.len() == 0 {
        Seq::empty()
    } else {
        let before = found_fonts(results.drop_last());
        match results.last() {
            Some(font) => before.push(font),
            None => before,
        }
    }
}

/// Texts are drawn with the configured font, or else with the one that comes with the
/// program, and then with the fallback fonts that were found, in their order; and the
/// search for fallback fonts goes through all of them.
pub proof fn lemma_order_of_fonts<F>(primary: Option<F>, bundled: F, results: Seq<Option<F>>)
    requires
        results.len() < usize::MAX,
    ensures
        ({
            let first = FontState::start().finished(primary);
            let ready = if primary is None {
                first.finished(Some(bundled))
            } else {
                first
            };
            let done = after_fallbacks(ready, results);
            let best = match primary {
                Some(font) => font,
                None => bundled,
            };
            &&& first.stage is Bundled <==> primary is None
            &&& ready.stage == FontStage::Fallback(0)
            &&& done.stage == FontStage::Fallback(results.len() as usize)
            &&& done.fonts == seq![best] + found_fonts(results)
        }),
    decreases results.len(),
{
    let first = FontState::start().finished(primary);
    let ready = if primary is None {
        first.finished(Some(bundled))
    } else {
        first
    };
    let best = match primary {
        Some(font) => font,
        None => bundled,
    };
    assert(ready.fonts =~= seq![best]);
    if results.len() > 0 {
        lemma_order_of_fonts(primary, bundled, results.drop_last());
    }
    assert(after_fallbacks(ready, results).fonts =~= seq![best] + found_fonts(results));
}

} // verus!
