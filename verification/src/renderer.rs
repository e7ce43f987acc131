//! Typesetting preferences and the language test that selects CJK layout rules.
use vstd::prelude::*;
use crate::text::{chars_of, lower_seq, lowered};

verus! {

/// Whether auto-fit treats the source lettering's size as a ceiling.
#[derive(Clone, Copy, Debug, PartialEq, Eq, Structural)]
pub enum SizeAnchor {
    Source,
    Off,
}

impl Default for SizeAnchor {
    fn default() -> (a: Self)
        ensures
            a == SizeAnchor::Source,
    {
        SizeAnchor::Source
    }
}

/// How the auto-fit font-size search runs.
#[derive(Clone, Copy, Debug, PartialEq, Eq, Structural)]
pub enum FontSearchStrategy {
    SizeFirst,
    KStratified,
}

impl Default for FontSearchStrategy {
    fn default() -> (s: Self)
        ensures
            s == FontSearchStrategy::SizeFirst,
    {
        FontSearchStrategy::SizeFirst
    }
}

/// Typesetting preferences.
#[derive(Clone, Debug, PartialEq, Eq)]
pub struct TypesettingConfig {
    pub font_families: Vec<String>,
    pub size_anchor: SizeAnchor,
    pub pixel_snap: bool,
    pub font_search_strategy: FontSearchStrategy,
}

impl Default for TypesettingConfig {
    fn default() -> (c: Self)
        ensures
            c.font_families@.len() == 2,
            c.font_families@[0]@ == "CCWildWords"@,
            c.font_families@[1]@ == "Adobe 黑体 Std"@,
            c.size_anchor == SizeAnchor::Source,
            c.pixel_snap,
            c.font_search_strategy == FontSearchStrategy::SizeFirst,
    {
        let mut font_families: Vec<String> = Vec::new();
        font_families.push("CCWildWords".to_owned());
        font_families.push("Adobe 黑体 Std".to_owned());
        TypesettingConfig {
            font_families,
            size_anchor: SizeAnchor::Source,
            pixel_snap: true,
            font_search_strategy: FontSearchStrategy::SizeFirst,
        }
    }
}

/// Shapes text and records the glyphs into vector scenes.
#[derive(Clone, Copy, Debug, PartialEq, Eq, Structural)]
pub struct TextRenderer;

impl TextRenderer {
    /// A renderer.
    pub fn new() -> (r: Self)
        ensures
            r == TextRenderer,
    {
        TextRenderer
    }
}

/// The primary subtag of a language tag: the text before the first `-` or `_`.
pub open spec fn primary_subtag(tag: Seq<char>) -> Seq<char>
    decreases tag.len(),
{
    if tag.len() == 0 {
        tag
    } else if tag[0] == '-' || tag[0] == '_' {
        Seq::empty()
    } else {
        seq![tag[0]] + primary_subtag(tag.drop_first())
    }
}

/// Chinese and Japanese tags, in any ASCII letter case.
pub open spec fn spec_is_chinese_or_japanese(tag: Seq<char>) -> bool {
    let primary = lower_seq(primary_subtag(tag));
    primary == seq!['j', 'a'] || primary == seq!['z', 'h']
}

/// Whether a language tag names Chinese or Japanese.
pub fn is_chinese_or_japanese_language(language: &str) -> (b: bool)
    ensures
        b == spec_is_chinese_or_japanese(language@),
{
    let chars = chars_of(language);
    let mut i: usize = 0;
    proof {
        assert(chars@.skip(0) == chars@);
        assert(chars@.take(0) =~= Seq::<char>::empty());
        assert(chars@.take(0) + primary_subtag(chars@.skip(0)) =~= primary_subtag(chars@));
    }
    while i < chars.len() && chars[i] != '-' && chars[i] != '_'
        invariant
            i <= chars.len(),
            primary_subtag(chars@) == chars@.take(i as int) + primary_subtag(chars@.skip(i as int)),
        decreases chars.len() - i,
    {
        proof {
            let rest = chars@.skip(i as int);
            assert(rest.drop_first() == chars@.skip(i + 1));
            assert(chars@.take(i as int) + primary_subtag(rest) =~= chars@.take(i + 1)
                + primary_subtag(chars@.skip(i + 1)));
        }
        i = i + 1;
    }
    proof {
        let rest = chars@.skip(i as int);
        if i < chars.len() {
            assert(rest[0] == chars@[i as int]);
        }
        assert(primary_subtag(rest) == Seq::<char>::empty());
        assert(chars@.take(i as int) + Seq::<char>::empty() == chars@.take(i as int));
    }
    let mut primary: Vec<char> = Vec::new();
    let mut j: usize = 0;
    while j < i
        invariant
            j <= i <= chars.len(),
            primary@ == chars@.take(j as int),
        decreases i - j,
    {
        primary.push(chars[j]);
        j = j + 1;
        proof {
            assert(chars@.take(j as int) == chars@.take(j - 1).push(chars@[j - 1]));
        }
    }
    let lower = lowered(primary.as_slice());
    let r = lower.len() == 2 && ((lower[0] == 'j' && lower[1] == 'a') || (lower[0] == 'z'
        && lower[1] == 'h'));
    proof {
        if lower@.len() == 2 && lower@[0] == 'j' && lower@[1] == 'a' {
            assert(lower@ == seq!['j', 'a']);
        }
        if lower@.len() == 2 && lower@[0] == 'z' && lower@[1] == 'h' {
            assert(lower@ == seq!['z', 'h']);
        }
    }
    r
}

} // verus!
