//! The user's settings and the decisions drawn from them.

use vstd::prelude::*;
use crate::text::{chars_of, find_from, find_from_spec, string_from_range};

verus! {

broadcast use vstd::string::group_string_axioms;

/// The user's settings.
#[derive(Debug, Clone)]
pub struct AppConfig {
    pub download_dir: String,
    pub auto_retry: bool,
    pub window_style: String,
    pub theme_mode: String,
}

/// The window style used when the settings name none: `default`.
pub fn default_style() -> (r: String)
    ensures
        r@ == "default"@,
{
    String::from_str("default")
}

/// The theme used when the settings name none: `system`.
pub fn default_theme() -> (r: String)
    ensures
        r@ == "system"@,
{
    String::from_str("system")
}

impl Default for AppConfig {
    /// The settings of a first start: no download directory, automatic
    /// retry on, the default window style and the system theme.
    fn default() -> (r: AppConfig)
        ensures
            r.download_dir@ == Seq::<char>::empty(),
            r.auto_retry,
            r.window_style@ == "default"@,
            r.theme_mode@ == "system"@,
    {
        AppConfig {
            download_dir: String::new(),
            auto_retry: true,
            window_style: default_style(),
            theme_mode: default_theme(),
        }
    }
}

/// The window style after loading: the retired `mica` style reads as
/// `mica_alt`; every other style is kept.
pub open spec fn normalized_style(style: Seq<char>) -> Seq<char> {
    if style == "mica"@ {
        "mica_alt"@
    } else {
        style
    }
}

/// The settings as loading hands them out: `mica` becomes `mica_alt`, the
/// rest is unchanged.
pub fn normalize_loaded(config: AppConfig) -> (r: AppConfig)
    ensures
        r.download_dir@ == config.download_dir@,
        r.auto_retry == config.auto_retry,
        r.window_style@ == normalized_style(config.window_style@),
        r.theme_mode@ == config.theme_mode@,
{
    let mut config = config;
    if config.window_style == "mica".to_string() {
        config.window_style = String::from_str("mica_alt");
    }
    config
}

/// The author of a repository address: the path segment after the first
/// `github.com/`, up to the next `/`; empty when the address does not hold
/// `github.com/`.
pub open spec fn repository_owner(repo: Seq<char>) -> Seq<char> {
    match find_from_spec(repo, "github.com/"@, 0) {
        Some(a) => {
            let start = a + 11;
            match find_from_spec(repo, "/"@, start) {
                Some(b) => repo.subrange(start, b),
                None => repo.subrange(start, repo.len() as int),
            }
        },
        None => Seq::empty(),
    }
}

/// The author shown in the about box, read from the repository address.
pub fn repository_author(repository: &str) -> (r: String)
    ensures
        r@ == repository_owner(repository@),
{
    let v = chars_of(repository);
    let host = chars_of("github.com/");
    let slash = chars_of("/");
    proof {
        reveal_strlit("github.com/");
        crate::text::lemma_find_from(v@, host@, 0);
    }
    match find_from(&v, &host, 0) {
        Some(a) => {
            assert(crate::text::occurs_at(v@, host@, a as int));
            assert(host@.len() == 11);
            assert(a + 11 <= v.len());
            let start = a + 11;
            proof {
                crate::text::lemma_find_from(v@, slash@, start as int);
            }
            match find_from(&v, &slash, start) {
                Some(b) => string_from_range(&v, start, b),
                None => string_from_range(&v, start, v.len()),
            }
        },
        None => String::new(),
    }
}

/// The folder downloads go to when the settings name none: `D:\` when that
/// drive exists, else the user's saved-games folder.
pub fn default_download_dir(d_drive_exists: bool, saved_games_dir: String) -> (r: String)
    ensures
        d_drive_exists ==> r@ == "D:\\"@,
        !d_drive_exists ==> r@ == saved_games_dir@,
{
    if d_drive_exists {
        String::from_str("D:\\")
    } else {
        saved_games_dir
    }
}

/// The folder that holds the game folders: the one the settings name, or
/// the default when they name none.
pub fn download_base(configured: String, default_dir: String) -> (r: String)
    ensures
        configured@.len() == 0 ==> r@ == default_dir@,
        configured@.len() > 0 ==> r@ == configured@,
{
    if configured.as_str().unicode_len() == 0 {
        default_dir
    } else {
        configured
    }
}

/// The backdrop effect of the main window.
#[derive(Debug, Clone, Copy, PartialEq, Eq)]
pub enum WindowEffect {
    /// The tabbed (Mica Alt) backdrop, dark or light.
    Tabbed { dark: bool },
    /// The acrylic backdrop with a tint (red, green, blue, alpha).
    Acrylic { tint: (u8, u8, u8, u8) },
    /// No backdrop: every effect is cleared.
    Clear,
}

/// The effect a window style asks for: `mica_alt` is tabbed, `acrylic` is
/// acrylic tinted dark grey or white (alpha 220) with the theme, and every
/// other style clears the effects.
pub fn window_effect(style: &str, dark: bool) -> (r: WindowEffect)
    ensures
        style@ == "mica_alt"@ ==> r == (WindowEffect::Tabbed { dark }),
        style@ == "acrylic"@ && dark ==> r == (WindowEffect::Acrylic { tint: (40, 40, 40, 220) }),
        style@ == "acrylic"@ && !dark ==> r == (WindowEffect::Acrylic {
            tint: (255, 255, 255, 220),
        }),
        style@ != "mica_alt"@ && style@ != "acrylic"@ ==> r == WindowEffect::Clear,
{
    proof {
        reveal_strlit("mica_alt");
        reveal_strlit("acrylic");
        assert("acrylic"@.len() != "mica_alt"@.len());
    }
    let s = String::from_str(style);
    if s == "mica_alt".to_string() {
        WindowEffect::Tabbed { dark }
    } else if s == "acrylic".to_string() {
        if dark {
            WindowEffect::Acrylic { tint: (40, 40, 40, 220) }
        } else {
            WindowEffect::Acrylic { tint: (255, 255, 255, 220) }
        }
    } else {
        WindowEffect::Clear
    }
}

/// Loading is stable: normalizing a style twice gives what normalizing it
/// once gives, and no loaded style is `mica`.
pub proof fn law_style_normalization_stable(style: Seq<char>)
    ensures
        normalized_style(normalized_style(style)) == normalized_style(style),
        normalized_style(style) != "mica"@,
{
    reveal_strlit("mica");
    reveal_strlit("mica_alt");
    assert("mica_alt"@.len() != "mica"@.len());
}

} // verus!
