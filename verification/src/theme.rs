//! The color palette every renderer routes through: syntax-token colors,
//! diff line tints, highlight backgrounds and UI chrome, with the one rule
//! that combines two of them (a selection over a tint) and the contrast
//! guarantees the default palette keeps.
use vstd::prelude::*;

use crate::diff::{FileChangeKind, LineOrigin};
use crate::highlight::TokenKind;

verus! {

/// A terminal color: a named color, an indexed palette entry, or a 24-bit
/// RGB value.
#[derive(Debug, Clone, Copy, PartialEq, Eq, Structural)]
pub enum Color {
    Reset,
    Black,
    Red,
    Green,
    Yellow,
    Blue,
    Magenta,
    Cyan,
    Gray,
    DarkGray,
    LightRed,
    LightGreen,
    LightYellow,
    LightBlue,
    LightMagenta,
    LightCyan,
    White,
    Rgb(u8, u8, u8),
    Indexed(u8),
}

/// A brightness proxy: the sum of an RGB color's channels, 0 for any other
/// color.
pub open spec fn channel_sum(c: Color) -> int {
    match c {
        Color::Rgb(r, g, b) => r + g + b,
        _ => 0,
    }
}

/// `a + b`, saturating at 255.
pub open spec fn sat_add(a: u8, b: u8) -> u8 {
    if a + b > 255 {
        255
    } else {
        (a + b) as u8
    }
}

/// A selection highlight composited over a standing tint: per-channel
/// saturating addition when both are RGB, so the tint's hue stays while
/// the selection's brightness adds; the selection unchanged otherwise.
pub open spec fn blend_spec(selection: Color, tint: Color) -> Color {
    match (selection, tint) {
        (Color::Rgb(sr, sg, sb), Color::Rgb(tr, tg, tb)) => Color::Rgb(
            sat_add(sr, tr),
            sat_add(sg, tg),
            sat_add(sb, tb),
        ),
        _ => selection,
    }
}

/// Composites `selection` over `tint` (see [`blend_spec`]).
pub fn blend(selection: Color, tint: Color) -> (c: Color)
    ensures
        c == blend_spec(selection, tint),
{
    match (selection, tint) {
        (Color::Rgb(sr, sg, sb), Color::Rgb(tr, tg, tb)) => Color::Rgb(
            sr.saturating_add(tr),
            sg.saturating_add(tg),
            sb.saturating_add(tb),
        ),
        _ => selection,
    }
}

/// The full palette the sidebar, diff pane, panels and overlays render
/// through.
#[derive(Debug, Clone, Copy, PartialEq, Eq, Structural)]
pub struct Theme {
    // Syntax token colors.
    pub keyword: Color,
    pub function: Color,
    pub type_: Color,
    pub string: Color,
    pub number: Color,
    pub comment: Color,
    pub constant: Color,
    pub property: Color,
    pub operator: Color,
    pub punctuation: Color,
    pub variable: Color,
    pub attribute: Color,
    pub embedded: Color,
    pub other: Color,
    // Diff line tints (backgrounds) and fallback foregrounds.
    pub added_bg: Color,
    pub removed_bg: Color,
    pub word_diff_bg: Color,
    pub added_fg: Color,
    pub removed_fg: Color,
    pub context_fg: Color,
    // Chrome shared by the diff pane, sidebar and panels.
    pub gutter: Color,
    pub gutter_cursor_fg: Color,
    pub dot_marker: Color,
    pub selected_row_bg: Color,
    pub search_match_bg: Color,
    pub search_match_fg: Color,
    pub search_prompt: Color,
    pub annotation_text: Color,
    pub hunk_header: Color,
    pub binary_placeholder: Color,
    pub status_message: Color,
    pub column_cursor_bg: Color,
    pub annotation_bg: Color,
    pub annotation_accent: Color,
    pub file_header_bg: Color,
    // The review-session banner, and the review markers.
    pub review_banner_bg: Color,
    pub review_banner_fg: Color,
    pub review_deferred_marker: Color,
    pub review_changed_marker: Color,
    // Change-kind letters.
    pub kind_added: Color,
    pub kind_deleted: Color,
    pub kind_modified: Color,
    pub kind_renamed: Color,
    pub kind_untracked: Color,
    // Sidebar and footer.
    pub staged_indicator: Color,
    pub dir_prefix: Color,
    pub footer_text: Color,
    pub focused_border: Color,
    // Help overlay and annotation list.
    pub help_section_header: Color,
    pub help_key: Color,
    pub classification_tag: Color,
}

/// The default palette.
pub open spec fn default_theme() -> Theme {
    Theme {
        keyword: Color::Magenta,
        function: Color::Blue,
        type_: Color::Yellow,
        string: Color::Green,
        number: Color::Cyan,
        comment: Color::DarkGray,
        constant: Color::Cyan,
        property: Color::Blue,
        operator: Color::White,
        punctuation: Color::White,
        variable: Color::White,
        attribute: Color::Magenta,
        embedded: Color::White,
        other: Color::Reset,
        added_bg: Color::Rgb(20, 40, 20),
        removed_bg: Color::Rgb(45, 20, 20),
        word_diff_bg: Color::Rgb(60, 60, 20),
        added_fg: Color::Green,
        removed_fg: Color::Red,
        context_fg: Color::Reset,
        gutter: Color::DarkGray,
        gutter_cursor_fg: Color::Rgb(220, 220, 230),
        dot_marker: Color::Yellow,
        selected_row_bg: Color::Rgb(45, 55, 90),
        search_match_bg: Color::Rgb(60, 40, 70),
        search_match_fg: Color::Rgb(100, 180, 255),
        search_prompt: Color::Cyan,
        annotation_text: Color::DarkGray,
        hunk_header: Color::Cyan,
        binary_placeholder: Color::DarkGray,
        status_message: Color::Yellow,
        column_cursor_bg: Color::Rgb(110, 120, 170),
        annotation_bg: Color::Rgb(24, 22, 32),
        annotation_accent: Color::Rgb(140, 120, 200),
        file_header_bg: Color::Rgb(20, 24, 28),
        review_banner_bg: Color::Rgb(110, 10, 10),
        review_banner_fg: Color::Rgb(255, 235, 235),
        review_deferred_marker: Color::Rgb(220, 170, 60),
        review_changed_marker: Color::Rgb(240, 100, 100),
        kind_added: Color::Green,
        kind_deleted: Color::Red,
        kind_modified: Color::Yellow,
        kind_renamed: Color::Blue,
        kind_untracked: Color::DarkGray,
        staged_indicator: Color::Green,
        dir_prefix: Color::DarkGray,
        footer_text: Color::DarkGray,
        focused_border: Color::Cyan,
        help_section_header: Color::Yellow,
        help_key: Color::Cyan,
        classification_tag: Color::Cyan,
    }
}

impl Default for Theme {
    fn default() -> (t: Theme)
        ensures
            t == default_theme(),
    {
        Theme {
            keyword: Color::Magenta,
            function: Color::Blue,
            type_: Color::Yellow,
            string: Color::Green,
            number: Color::Cyan,
            comment: Color::DarkGray,
            constant: Color::Cyan,
            property: Color::Blue,
            operator: Color::White,
            punctuation: Color::White,
            variable: Color::White,
            attribute: Color::Magenta,
            embedded: Color::White,
            other: Color::Reset,
            added_bg: Color::Rgb(20, 40, 20),
            removed_bg: Color::Rgb(45, 20, 20),
            word_diff_bg: Color::Rgb(60, 60, 20),
            added_fg: Color::Green,
            removed_fg: Color::Red,
            context_fg: Color::Reset,
            gutter: Color::DarkGray,
            gutter_cursor_fg: Color::Rgb(220, 220, 230),
            dot_marker: Color::Yellow,
            selected_row_bg: Color::Rgb(45, 55, 90),
            search_match_bg: Color::Rgb(60, 40, 70),
            search_match_fg: Color::Rgb(100, 180, 255),
            search_prompt: Color::Cyan,
            annotation_text: Color::DarkGray,
            hunk_header: Color::Cyan,
            binary_placeholder: Color::DarkGray,
            status_message: Color::Yellow,
            column_cursor_bg: Color::Rgb(110, 120, 170),
            annotation_bg: Color::Rgb(24, 22, 32),
            annotation_accent: Color::Rgb(140, 120, 200),
            file_header_bg: Color::Rgb(20, 24, 28),
            review_banner_bg: Color::Rgb(110, 10, 10),
            review_banner_fg: Color::Rgb(255, 235, 235),
            review_deferred_marker: Color::Rgb(220, 170, 60),
            review_changed_marker: Color::Rgb(240, 100, 100),
            kind_added: Color::Green,
            kind_deleted: Color::Red,
            kind_modified: Color::Yellow,
            kind_renamed: Color::Blue,
            kind_untracked: Color::DarkGray,
            staged_indicator: Color::Green,
            dir_prefix: Color::DarkGray,
            footer_text: Color::DarkGray,
            focused_border: Color::Cyan,
            help_section_header: Color::Yellow,
            help_key: Color::Cyan,
            classification_tag: Color::Cyan,
        }
    }
}

impl Theme {
    /// A token's foreground color: each kind has its own palette entry.
    pub fn token_color(&self, kind: TokenKind) -> (c: Color)
        ensures
            c == match kind {
                TokenKind::Keyword => self.keyword,
                TokenKind::Function => self.function,
                TokenKind::Type => self.type_,
                TokenKind::String => self.string,
                TokenKind::Number => self.number,
                TokenKind::Comment => self.comment,
                TokenKind::Constant => self.constant,
                TokenKind::Property => self.property,
                TokenKind::Operator => self.operator,
                TokenKind::Punctuation => self.punctuation,
                TokenKind::Variable => self.variable,
                TokenKind::Attribute => self.attribute,
                TokenKind::Embedded => self.embedded,
                TokenKind::Other => self.other,
            },
    {
        match kind {
            TokenKind::Keyword => self.keyword,
            TokenKind::Function => self.function,
            TokenKind::Type => self.type_,
            TokenKind::String => self.string,
            TokenKind::Number => self.number,
            TokenKind::Comment => self.comment,
            TokenKind::Constant => self.constant,
            TokenKind::Property => self.property,
            TokenKind::Operator => self.operator,
            TokenKind::Punctuation => self.punctuation,
            TokenKind::Variable => self.variable,
            TokenKind::Attribute => self.attribute,
            TokenKind::Embedded => self.embedded,
            TokenKind::Other => self.other,
        }
    }

    /// A file's change-kind letter color: renames and copies share one.
    pub fn kind_color(&self, kind: FileChangeKind) -> (c: Color)
        ensures
            c == match kind {
                FileChangeKind::Added => self.kind_added,
                FileChangeKind::Deleted => self.kind_deleted,
                FileChangeKind::Modified => self.kind_modified,
                FileChangeKind::Renamed => self.kind_renamed,
                FileChangeKind::Copied => self.kind_renamed,
            },
    {
        match kind {
            FileChangeKind::Added => self.kind_added,
            FileChangeKind::Deleted => self.kind_deleted,
            FileChangeKind::Modified => self.kind_modified,
            FileChangeKind::Renamed | FileChangeKind::Copied => self.kind_renamed,
        }
    }

    /// A porcelain status letter's color, after git's `--name-status`
    /// letters plus `?` for untracked; white for any other letter.
    pub fn letter_color(&self, letter: char) -> (c: Color)
        ensures
            c == if letter == 'A' {
                self.kind_added
            } else if letter == 'M' {
                self.kind_modified
            } else if letter == 'D' {
                self.kind_deleted
            } else if letter == 'R' || letter == 'C' {
                self.kind_renamed
            } else if letter == '?' {
                self.kind_untracked
            } else {
                Color::White
            },
    {
        match letter {
            'A' => self.kind_added,
            'M' => self.kind_modified,
            'D' => self.kind_deleted,
            'R' | 'C' => self.kind_renamed,
            '?' => self.kind_untracked,
            _ => Color::White,
        }
    }

    /// A diff line's background tint by origin: none for context.
    pub fn origin_bg(&self, origin: LineOrigin) -> (c: Option<Color>)
        ensures
            c == match origin {
                LineOrigin::Added => Some(self.added_bg),
                LineOrigin::Removed => Some(self.removed_bg),
                LineOrigin::Context => None::<Color>,
            },
    {
        match origin {
            LineOrigin::Added => Some(self.added_bg),
            LineOrigin::Removed => Some(self.removed_bg),
            LineOrigin::Context => None,
        }
    }

    /// A diff line's marker and fallback foreground by origin.
    pub fn origin_fg(&self, origin: LineOrigin) -> (c: Color)
        ensures
            c == match origin {
                LineOrigin::Added => self.added_fg,
                LineOrigin::Removed => self.removed_fg,
                LineOrigin::Context => self.context_fg,
            },
    {
        match origin {
            LineOrigin::Added => self.added_fg,
            LineOrigin::Removed => self.removed_fg,
            LineOrigin::Context => self.context_fg,
        }
    }
}

/// Blending a selection over an RGB tint never darkens the tint: every
/// channel of the result is at least the tint's.
pub proof fn lemma_blend_never_darkens(selection: Color, tint: Color)
    requires
        selection is Rgb,
        tint is Rgb,
    ensures
        channel_sum(blend_spec(selection, tint)) >= channel_sum(tint),
{
}

/// In the default palette the column cursor outshines every background a
/// selected row can have: plain, or blended over an added, removed or
/// search-match tint.
pub proof fn lemma_column_cursor_outshines_selected_rows()
    ensures
        ({
            let t = default_theme();
            &&& channel_sum(t.column_cursor_bg) > channel_sum(t.selected_row_bg)
            &&& channel_sum(t.column_cursor_bg) > channel_sum(blend_spec(t.selected_row_bg, t.added_bg))
            &&& channel_sum(t.column_cursor_bg) > channel_sum(
                blend_spec(t.selected_row_bg, t.removed_bg),
            )
            &&& channel_sum(t.column_cursor_bg) > channel_sum(
                blend_spec(t.selected_row_bg, t.search_match_bg),
            )
        }),
{
}

/// In the default palette a selected added or removed line reads brighter
/// than the same line unselected.
pub proof fn lemma_selected_rows_brighter_than_their_tints()
    ensures
        ({
            let t = default_theme();
            &&& channel_sum(blend_spec(t.selected_row_bg, t.added_bg)) > channel_sum(t.added_bg)
            &&& channel_sum(blend_spec(t.selected_row_bg, t.removed_bg)) > channel_sum(t.removed_bg)
        }),
{
}

/// The default review banner is high-contrast: a dark background and a far
/// brighter foreground.
pub proof fn lemma_review_banner_contrast()
    ensures
        ({
            let t = default_theme();
            &&& channel_sum(t.review_banner_bg) < 300
            &&& channel_sum(t.review_banner_fg) > 600
            &&& channel_sum(t.review_banner_fg) > channel_sum(t.review_banner_bg) + 400
        }),
{
}

} // verus!
