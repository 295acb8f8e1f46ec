//! Text with formatting entities.
use vstd::prelude::*;

verus! {

#[derive(Debug, Clone, Copy, PartialEq, Eq, Structural)]
pub enum EntityKind {
    Bold,
    Italic,
    Underline,
    Strikethrough,
    Code,
    Pre,
    Spoiler,
}

/// A formatted run, measured in UTF-16 code units as TDLib does.
#[derive(Debug, Clone, Copy, PartialEq, Eq, Structural)]
pub struct TextEntity {
    pub offset_utf16: u32,
    pub length_utf16: u32,
    pub kind: EntityKind,
}

#[derive(Debug, PartialEq)]
pub struct FormattedText {
    pub text: String,
    pub entities: Vec<TextEntity>,
}

#[verifier::ext_equal]
pub ghost struct TextSpec {
    pub text: Seq<char>,
    pub entities: Seq<TextEntity>,
}

impl View for FormattedText {
    type V = TextSpec;

    open spec fn view(&self) -> TextSpec {
        TextSpec { text: self.text@, entities: self.entities@ }
    }
}

impl Clone for FormattedText {
    fn clone(&self) -> (r: FormattedText)
        ensures
            r@ == self@,
    {
        let r = FormattedText { text: self.text.clone(), entities: self.entities.clone() };
        assert(r.entities@ =~= self.entities@);
        r
    }
}

} // verus!
