//! The manifest scraper: pulls the value of a named field out of the text of
//! one application manifest file. A field sits on a line of the form
//! `"<field>" "<value>"`, with arbitrary leading whitespace; the scraper takes
//! the first such line and ignores everything else, so nested structures in
//! the surrounding format are deliberately not interpreted.

use vstd::prelude::*;
use crate::text::{
    split_char, seq_views, trim_start, split_str, first_non_space, str_starts_with,
};

verus! {

/// The field name wrapped in double quotes, as it stands on a manifest line.
pub open spec fn quoted(key: Seq<char>) -> Seq<char> {
    seq!['"'] + key + seq!['"']
}

/// A line carries the field when, after its leading whitespace, it starts
/// with the quoted field name.
pub open spec fn line_matches(line: Seq<char>, key: Seq<char>) -> bool {
    quoted(key).is_prefix_of(trim_start(line))
}

/// The value a line carries: the piece between the third and fourth double
/// quote of the line (to the end of the line when there is no fourth), or
/// nothing when the line has fewer than three quotes.
pub open spec fn line_value(line: Seq<char>) -> Option<Seq<char>> {
    let parts = split_char(line, '"');
    if parts.len() >= 4 {
        Some(parts[3])
    } else {
        None
    }
}

/// What one line contributes for `key`: its value when it matches, else nothing.
pub open spec fn line_try(line: Seq<char>, key: Seq<char>) -> Option<Seq<char>> {
    if line_matches(line, key) {
        line_value(line)
    } else {
        None
    }
}

/// A line loses one trailing carriage return, so texts with CRLF line
/// endings read the same as texts with bare LF endings.
pub open spec fn strip_cr(line: Seq<char>) -> Seq<char> {
    if line.len() > 0 && line.last() == '\r' {
        line.drop_last()
    } else {
        line
    }
}

/// The lines of a text: the pieces between newlines. A carriage return is
/// part of the line ending only when a newline follows it, so every piece
/// but the last loses one trailing carriage return; a carriage return at
/// the very end of the text is ordinary content and stays.
pub open spec fn lines_of(s: Seq<char>) -> Seq<Seq<char>> {
    let pieces = split_char(s, '\n');
    pieces.map(
        |i: int, l: Seq<char>|
            if i < pieces.len() - 1 {
                strip_cr(l)
            } else {
                l
            },
    )
}

/// The value for `key` from the first line that matches and carries a value;
/// matching lines without a value are skipped, like every other line.
pub open spec fn extract_from_lines(lines: Seq<Seq<char>>, key: Seq<char>) -> Option<Seq<char>>
    decreases lines.len(),
{
    if lines.len() == 0 {
        None
    } else if line_try(lines[0], key) is Some {
        line_try(lines[0], key)
    } else {
        extract_from_lines(lines.drop_first(), key)
    }
}

/// The value associated with field `key` in the manifest text `content`.
pub open spec fn extract_spec(content: Seq<char>, key: Seq<char>) -> Option<Seq<char>> {
    extract_from_lines(lines_of(content), key)
}

/// View of an optional string.
pub open spec fn opt_view(r: Option<String>) -> Option<Seq<char>> {
    match r {
        Some(s) => Some(s@),
        None => None,
    }
}

/// The field name wrapped in double quotes, as a string.
fn quoted_key(key: &str) -> (r: String)
    ensures
        r@ == quoted(key@),
{
    proof {
        reveal_strlit("\"");
    }
    let r = String::from_str("\"").concat(key).concat("\"");
    assert(r@ =~= quoted(key@));
    r
}

/// What one manifest line yields for `key`.
fn try_line(line: &str, key: &str) -> (r: Option<String>)
    ensures
        opt_view(r) == line_try(line@, key@),
{
    let n = line.unicode_len();
    let t = first_non_space(line);
    let rest = line.substring_char(t, n);
    assert(rest@ =~= line@.skip(t as int));
    let pat = quoted_key(key);
    if !str_starts_with(rest, pat.as_str()) {
        return None;
    }
    let parts = split_str(line, '"');
    if parts.len() >= 4 {
        let v = parts[3].clone();
        assert(v@ == seq_views(parts@)[3]);
        Some(v)
    } else {
        None
    }
}

/// The value of field `key` in the manifest text `content`: the value on the
/// first line that, after leading whitespace, starts with `"key"` and holds
/// at least three double quotes. Absence of such a line is not an error.
pub fn extract_acf_value(content: &str, key: &str) -> (r: Option<String>)
    ensures
        opt_view(r) == extract_spec(content@, key@),
{
    let pieces = split_str(content, '\n');
    let ghost all_lines = lines_of(content@);
    proof {
        assert(all_lines.skip(0) =~= all_lines);
    }
    let mut k: usize = 0;
    while k < pieces.len()
        invariant
            k <= pieces@.len(),
            seq_views(pieces@) == split_char(content@, '\n'),
            all_lines == lines_of(content@),
            all_lines.len() == pieces@.len(),
            extract_from_lines(all_lines.skip(k as int), key@) == extract_spec(content@, key@),
        decreases pieces@.len() - k,
    {
        let ps = pieces[k].as_str();
        let pn = ps.unicode_len();
        let before_newline = k + 1 < pieces.len();
        let line: &str = if before_newline && pn > 0 && ps.get_char(pn - 1) == '\r' {
            ps.substring_char(0, pn - 1)
        } else {
            ps
        };
        proof {
            assert(ps@ == seq_views(pieces@)[k as int]);
            if before_newline {
                assert(all_lines[k as int] == strip_cr(ps@));
                if pn > 0 && ps@.last() == '\r' {
                    assert(line@ =~= ps@.drop_last());
                }
            } else {
                assert(all_lines[k as int] == ps@);
            }
            assert(line@ == all_lines[k as int]);
            assert(all_lines.skip(k as int)[0] == all_lines[k as int]);
        }
        let r = try_line(line, key);
        if let Some(v) = r {
            return Some(v);
        }
        proof {
            assert(all_lines.skip(k as int).drop_first() =~= all_lines.skip(k as int + 1));
        }
        k = k + 1;
    }
    assert(all_lines.skip(k as int).len() == 0);
    None
}

/// The fields of one manifest, as the scanner reads them: a missing `name`
/// or `installdir` field reads as the empty string.
pub struct ManifestFields {
    pub app_id: String,
    pub name: String,
    pub install_subdir: String,
}

/// The value of field `key` in `content`, an absent field reading as empty.
pub open spec fn field_or_empty(content: Seq<char>, key: Seq<char>) -> Seq<char> {
    match extract_spec(content, key) {
        Some(v) => v,
        None => Seq::empty(),
    }
}

/// Reads the three fields a game record is built from, or nothing when the
/// manifest has no non-empty `appid` field (such a manifest names no game).
pub fn parse_manifest(content: &str) -> (r: Option<ManifestFields>)
    ensures
        match r {
            Some(f) => field_or_empty(content@, "appid"@).len() > 0
                && f.app_id@ == field_or_empty(content@, "appid"@)
                && f.name@ == field_or_empty(content@, "name"@)
                && f.install_subdir@ == field_or_empty(content@, "installdir"@),
            None => field_or_empty(content@, "appid"@).len() == 0,
        },
{
    let app_id = match extract_acf_value(content, "appid") {
        Some(v) => v,
        None => String::new(),
    };
    if app_id.as_str().is_empty() {
        return None;
    }
    let name = match extract_acf_value(content, "name") {
        Some(v) => v,
        None => String::new(),
    };
    let install_subdir = match extract_acf_value(content, "installdir") {
        Some(v) => v,
        None => String::new(),
    };
    Some(ManifestFields { app_id, name, install_subdir })
}

} // verus!
