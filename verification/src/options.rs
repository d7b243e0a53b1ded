//! Configuration for the markdown renderer.
use vstd::prelude::*;

verus! {

/// Switches for the markdown renderer: which syntax extensions are enabled
/// and how the output is rendered. Heading anchors are always generated and
/// are not configurable here.
#[derive(Clone, Copy, PartialEq, Eq, Structural, Debug)]
pub struct ParserOptions {
    pub alerts: bool,
    pub autolink: bool,
    pub description_lists: bool,
    pub footnotes: bool,
    pub greentext: bool,
    pub multiline_block_quotes: bool,
    pub tagfilter: bool,
    pub shortcodes: bool,
    pub spoiler: bool,
    pub strikethrough: bool,
    pub table: bool,
    pub tasklist: bool,
    pub underline: bool,
    pub wikilinks_title_before_pipe: bool,
    pub wikilinks_title_after_pipe: bool,
    pub relaxed_tasklist_matching: bool,
    pub figure_with_caption: bool,
    pub ignore_empty_links: bool,
    pub raw_html: bool,
}

/// The options used when none are given: the common extension set is on,
/// images are wrapped in figures, empty links are ignored, and raw HTML
/// is escaped.
pub open spec fn default_parser_options() -> ParserOptions {
    ParserOptions {
        alerts: true,
        autolink: true,
        description_lists: true,
        footnotes: true,
        greentext: false,
        multiline_block_quotes: true,
        tagfilter: false,
        shortcodes: true,
        spoiler: true,
        strikethrough: true,
        table: true,
        tasklist: true,
        underline: true,
        wikilinks_title_before_pipe: false,
        wikilinks_title_after_pipe: true,
        relaxed_tasklist_matching: true,
        figure_with_caption: true,
        ignore_empty_links: true,
        raw_html: false,
    }
}

impl Default for ParserOptions {
    fn default() -> (r: Self)
        ensures
            r == default_parser_options(),
    {
        ParserOptions {
            alerts: true,
            autolink: true,
            description_lists: true,
            footnotes: true,
            greentext: false,
            multiline_block_quotes: true,
            tagfilter: false,
            shortcodes: true,
            spoiler: true,
            strikethrough: true,
            table: true,
            tasklist: true,
            underline: true,
            wikilinks_title_before_pipe: false,
            wikilinks_title_after_pipe: true,
            relaxed_tasklist_matching: true,
            figure_with_caption: true,
            ignore_empty_links: true,
            raw_html: false,
        }
    }
}

} // verus!
