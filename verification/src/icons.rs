//! Icon-theme selection and icon lookups.
//!
//! Which theme fits the running desktop, and which icon names the panel's
//! fixed icons use, are decided here; the search of the installed icon
//! themes on disk is the icon crate's work, behind a trusted wrapper.

use vstd::prelude::*;

use std::path::PathBuf;

use crate::text::str_eq;

verus! {

#[verifier::external_type_specification]
#[verifier::external_body]
pub struct ExPathBuf(PathBuf);

/// Relies on `<PathBuf as Clone>::clone`: returns a copy of the path.
pub assume_specification[ <PathBuf as Clone>::clone ](p: &PathBuf) -> (r: PathBuf)
    ensures
        r == *p,
;

/// The icon theme the panel draws its fixed icons from.
#[derive(Clone, Copy, Debug, PartialEq, Eq, Structural)]
pub enum IconTheme {
    Breeze,
    Cosmic,
    NoTheme,
}

/// Relies on `freedesktop_icons::lookup` (with the given theme, with the
/// cache): searches the installed icon themes on disk, falling back to
/// hicolor and pixmaps. Which path comes back, if any, depends on what is
/// installed on the machine, so nothing is promised of the result.
#[verifier::external_body]
pub(crate) fn lookup_icon(icon: &str, theme: &str) -> (r: Option<PathBuf>) {
    freedesktop_icons::lookup(icon).with_theme(theme).with_cache().find()
}

impl IconTheme {
    /// The theme inferred from the current desktop's name, lowercased:
    /// `kde` means Breeze, `cosmic` means Cosmic, anything else or no
    /// desktop at all means no theme.
    pub fn from_desktop(current_desktop: Option<&str>) -> (r: IconTheme)
        ensures
            r == (match current_desktop {
                Some(d) => if d@ == "kde"@ {
                    IconTheme::Breeze
                } else if d@ == "cosmic"@ {
                    IconTheme::Cosmic
                } else {
                    IconTheme::NoTheme
                },
                None => IconTheme::NoTheme,
            }),
    {
        match current_desktop {
            Some(d) => {
                if str_eq(d, "kde") {
                    IconTheme::Breeze
                } else if str_eq(d, "cosmic") {
                    IconTheme::Cosmic
                } else {
                    IconTheme::NoTheme
                }
            },
            None => IconTheme::NoTheme,
        }
    }

    /// The theme's name as icon lookups expect it; the theme-less fallback
    /// is hicolor.
    pub fn to_string(&self) -> (r: String)
        ensures
            r@ == (match self {
                IconTheme::Breeze => "breeze"@,
                IconTheme::Cosmic => "Cosmic"@,
                IconTheme::NoTheme => "hicolor"@,
            }),
    {
        match self {
            IconTheme::Breeze => "breeze".to_owned(),
            IconTheme::Cosmic => "Cosmic".to_owned(),
            IconTheme::NoTheme => "hicolor".to_owned(),
        }
    }

    /// Look an icon name up in this theme.
    fn lookup(&self, icon: &str) -> Option<PathBuf> {
        let theme = self.to_string();
        lookup_icon(icon, theme.as_str())
    }
}

/// The fallback icon for applications without one of their own: the theme's
/// generic application icon, none for the theme-less panel.
pub fn default_icon_path(theme: &IconTheme) -> (r: Option<PathBuf>)
    ensures
        *theme == IconTheme::NoTheme ==> r is None,
{
    match theme {
        IconTheme::Breeze => theme.lookup("wayland"),
        IconTheme::Cosmic => theme.lookup("application-default"),
        IconTheme::NoTheme => None,
    }
}

/// The start-menu button's icon, none for the theme-less panel.
pub fn start_menu_icon(theme: &IconTheme) -> (r: Option<PathBuf>)
    ensures
        *theme == IconTheme::NoTheme ==> r is None,
{
    match theme {
        IconTheme::Breeze => theme.lookup("applications-all"),
        IconTheme::Cosmic => theme.lookup("applications-office"),
        IconTheme::NoTheme => None,
    }
}

} // verus!
