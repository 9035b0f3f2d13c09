//! Presentation helpers with verifiable content: rendering a commit age as
//! a compact duration, abbreviating a path under the home directory, and
//! the icon sets the table renderer draws from.
use vstd::prelude::*;

use crate::text::dec_digits;

verus! {

/// Options of the table renderer.
#[derive(Debug, Clone, Copy)]
pub struct UiOptions {
    pub color: bool,
    pub ascii: bool,
    pub json: bool,
}

impl Default for UiOptions {
    fn default() -> (r: Self)
        ensures
            r.color && !r.ascii && !r.json,
    {
        UiOptions { color: true, ascii: false, json: false }
    }
}

/// The icons the table renderer draws from.
pub struct Icons {
    pub current: &'static str,
    pub dirty: &'static str,
    pub clean: &'static str,
    pub arrow_up: &'static str,
    pub arrow_down: &'static str,
    pub rebase: &'static str,
}

/// The icon set for terminals that render the full character repertoire.
pub open spec fn is_unicode_icons(i: Icons) -> bool {
    &&& i.current@ == "\u{25b6}"@
    &&& i.dirty@ == "\u{25cf}"@
    &&& i.clean@ == "\u{2713}"@
    &&& i.arrow_up@ == "\u{2191}"@
    &&& i.arrow_down@ == "\u{2193}"@
    &&& i.rebase@ == "\u{27f3}"@
}

/// The plain icon set.
pub open spec fn is_ascii_icons(i: Icons) -> bool {
    &&& i.current@ == ">"@
    &&& i.dirty@ == "*"@
    &&& i.clean@ == "-"@
    &&& i.arrow_up@ == "^"@
    &&& i.arrow_down@ == "v"@
    &&& i.rebase@ == "R"@
}

impl Icons {
    pub fn unicode() -> (r: Self)
        ensures
            is_unicode_icons(r),
    {
        Icons {
            current: "\u{25b6}",
            dirty: "\u{25cf}",
            clean: "\u{2713}",
            arrow_up: "\u{2191}",
            arrow_down: "\u{2193}",
            rebase: "\u{27f3}",
        }
    }

    pub fn ascii() -> (r: Self)
        ensures
            is_ascii_icons(r),
    {
        Icons { current: ">", dirty: "*", clean: "-", arrow_up: "^", arrow_down: "v", rebase: "R" }
    }

    pub fn from_options(opts: &UiOptions) -> (r: Self)
        ensures
            opts.ascii ==> is_ascii_icons(r),
            !opts.ascii ==> is_unicode_icons(r),
    {
        if opts.ascii {
            Self::ascii()
        } else {
            Self::unicode()
        }
    }
}

/// A commit age rendered as a compact duration: fresh commits read "now",
/// then whole minutes, hours, days, weeks and months, and "-" when the age
/// is unknown.
pub open spec fn spec_format_time(seconds: Option<i64>) -> Seq<char> {
    match seconds {
        None => "-"@,
        Some(s) => if s < 60 {
            "now"@
        } else if s < 3600 {
            dec_digits((s / 60) as nat) + "m"@
        } else if s < 86400 {
            dec_digits((s / 3600) as nat) + "h"@
        } else if s < 604800 {
            dec_digits((s / 86400) as nat) + "d"@
        } else if s < 2592000 {
            dec_digits((s / 604800) as nat) + "w"@
        } else {
            dec_digits((s / 2592000) as nat) + "mo"@
        },
    }
}

/// Renders a commit age, in seconds, as a compact duration.
pub fn format_time(seconds: Option<i64>) -> (r: String)
    ensures
        r@ == spec_format_time(seconds),
{
    match seconds {
        None => "-".to_owned(),
        Some(s) => {
            if s < 60 {
                "now".to_owned()
            } else {
                let u = s as u64;
                if s < 3600 {
                    crate::text::u64_to_string(u / 60).concat("m")
                } else if s < 86400 {
                    crate::text::u64_to_string(u / 3600).concat("h")
                } else if s < 604800 {
                    crate::text::u64_to_string(u / 86400).concat("d")
                } else if s < 2592000 {
                    crate::text::u64_to_string(u / 604800).concat("w")
                } else {
                    crate::text::u64_to_string(u / 2592000).concat("mo")
                }
            }
        },
    }
}

/// The shorter rendering used by the interactive picker: as `format_time`,
/// but everything a week or older is counted in weeks.
pub open spec fn spec_format_time_short(seconds: Option<i64>) -> Seq<char> {
    match seconds {
        None => "-"@,
        Some(s) => if s < 60 {
            "now"@
        } else if s < 3600 {
            dec_digits((s / 60) as nat) + "m"@
        } else if s < 86400 {
            dec_digits((s / 3600) as nat) + "h"@
        } else if s < 604800 {
            dec_digits((s / 86400) as nat) + "d"@
        } else {
            dec_digits((s / 604800) as nat) + "w"@
        },
    }
}

/// Renders a commit age for the interactive picker.
pub fn format_time_short(seconds: Option<i64>) -> (r: String)
    ensures
        r@ == spec_format_time_short(seconds),
{
    match seconds {
        None => "-".to_owned(),
        Some(s) => {
            if s < 60 {
                "now".to_owned()
            } else {
                let u = s as u64;
                if s < 3600 {
                    crate::text::u64_to_string(u / 60).concat("m")
                } else if s < 86400 {
                    crate::text::u64_to_string(u / 3600).concat("h")
                } else if s < 604800 {
                    crate::text::u64_to_string(u / 86400).concat("d")
                } else {
                    crate::text::u64_to_string(u / 604800).concat("w")
                }
            }
        },
    }
}

/// A path with the home directory abbreviated: the home directory itself,
/// or anything under it, is written with a `~/` prefix; any other path is
/// returned unchanged.
pub open spec fn spec_shorten(path: Seq<char>, home: Option<Seq<char>>) -> Seq<char> {
    match home {
        None => path,
        Some(h) => if path == h {
            "~/"@
        } else if path.len() > h.len() && path.subrange(0, h.len() as int) == h && path[h.len() as int]
            == '/' {
            "~/"@ + path.subrange(h.len() as int + 1, path.len() as int)
        } else {
            path
        },
    }
}

/// Abbreviates `path` under `home`, when a home directory is known.
pub fn shorten_path(path: &String, home: Option<&String>) -> (r: String)
    ensures
        r@ == spec_shorten(
            path@,
            match home {
                Some(h) => Some(h@),
                None => None,
            },
        ),
{
    match home {
        None => path.clone(),
        Some(h) => {
            if *path == *h {
                return "~/".to_owned();
            }
            let pl = path.as_str().unicode_len();
            let hl = h.as_str().unicode_len();
            if pl > hl && path.as_str().get_char(hl) == '/' {
                let prefix = path.as_str().substring_char(0, hl);
                if prefix.to_owned() == *h {
                    let rest = path.as_str().substring_char(hl + 1, pl);
                    return "~/".to_owned().concat(rest);
                }
            }
            path.clone()
        },
    }
}

} // verus!
