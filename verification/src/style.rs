//! How an annotation is drawn.
use vstd::prelude::*;

verus! {

#[derive(Debug, Clone, Copy, PartialEq, Eq, Structural)]
pub struct Color {
    pub r: u8,
    pub g: u8,
    pub b: u8,
    pub a: u8,
}

#[derive(Debug, Clone, Copy, PartialEq, Eq, Structural)]
pub enum Size {
    Small,
    Medium,
    Large,
}

#[derive(Debug, Clone, Copy, PartialEq)]
pub struct Style<S> {
    pub color: Color,
    pub size: Size,
    pub fill: bool,
    pub annotation_size_factor: S,
}

/// One property of a style, with its new value.
#[derive(Debug, Clone, Copy, PartialEq)]
pub enum StyleChange<S> {
    Color(Color),
    Size(Size),
    Fill(bool),
    AnnotationSizeFactor(S),
}

} // verus!
