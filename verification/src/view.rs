//! The choices the screens make from the state: labels, icons and the CSS
//! classes and styles that reflect selection, status and settings.

use vstd::prelude::*;
use vstd::string::*;
use crate::config::{App, Project, app_icon_file_of};
use crate::text::{contains_char, decimal, decimal_string, starts_with};

verus! {

/// How an icon is shown: as an image from a `data:` URL, or as text (an
/// emoji, a letter).
#[derive(Debug, Clone, PartialEq)]
pub enum IconView {
    Image(String),
    Glyph(String),
}

/// The text an app card shows where it has no image: the app's icon, else
/// the first character of its name, else `?`.
pub open spec fn card_glyph_of(app: App) -> Seq<char> {
    match app.icon {
        Some(i) => i@,
        None => if app.name@.len() > 0 {
            seq![app.name@[0]]
        } else {
            "?"@
        },
    }
}

impl App {
    /// The icon the app's card shows: the image of its icon file where the
    /// icon names a file (holds a `.`) and its icon data was derived; else
    /// its text glyph (the icon, else the first character of the name, else `?`).
    pub fn card_icon(&self) -> (r: IconView)
        ensures
            match (app_icon_file_of(*self), self.icon_data) {
                (Some(_), Some(d)) => r matches IconView::Image(u) && u@ == d@,
                _ => r matches IconView::Glyph(g) && g@ == card_glyph_of(*self),
            },
    {
        match &self.icon {
            Some(i) => {
                if contains_char(i.as_str(), '.') {
                    if let Some(d) = &self.icon_data {
                        return IconView::Image(d.clone());
                    }
                }
                IconView::Glyph(i.clone())
            },
            None => {
                let name = self.name.as_str();
                if name.unicode_len() > 0 {
                    let first = String::from_str(name.substring_char(0, 1));
                    assert(first@ =~= seq![self.name@[0]]);
                    IconView::Glyph(first)
                } else {
                    IconView::Glyph(String::from_str("?"))
                }
            },
        }
    }
}

impl Project {
    /// The icon a project shows: the image of its icon file where its icon
    /// data was derived, else its icon as text, else none.
    pub fn shown_icon(&self) -> (r: Option<IconView>)
        ensures
            match self.icon_data {
                Some(d) => r matches Some(IconView::Image(u)) && u@ == d@,
                None => match self.icon {
                    Some(i) => r matches Some(IconView::Glyph(g)) && g@ == i@,
                    None => r is None,
                },
            },
    {
        match &self.icon_data {
            Some(d) => Some(IconView::Image(d.clone())),
            None => match &self.icon {
                Some(i) => Some(IconView::Glyph(i.clone())),
                None => None,
            },
        }
    }
}

/// The count of apps in a project header: `1 app`, `3 apps`.
pub fn app_count_label(n: usize) -> (r: String)
    ensures
        r@ == (if n != 1 {
            decimal(n as nat) + " apps"@
        } else {
            decimal(n as nat) + " app"@
        }),
{
    let mut r = decimal_string(n as u64);
    if n != 1 {
        r.append(" apps");
    } else {
        r.append(" app");
    }
    r
}

/// The classes of the side navigation.
pub fn nav_class(collapsed: bool) -> (r: &'static str)
    ensures
        r@ == (if collapsed {
            "sidenav collapsed"@
        } else {
            "sidenav"@
        }),
{
    if collapsed {
        "sidenav collapsed"
    } else {
        "sidenav"
    }
}

/// The arrow on the button that folds or unfolds the side navigation.
pub fn collapse_icon(collapsed: bool) -> (r: &'static str)
    ensures
        r@ == (if collapsed {
            "\u{2192}"@
        } else {
            "\u{2190}"@
        }),
{
    if collapsed {
        "\u{2192}"
    } else {
        "\u{2190}"
    }
}

/// The classes of a project in the side navigation.
pub fn nav_item_class(active: bool) -> (r: &'static str)
    ensures
        r@ == (if active {
            "nav-item active"@
        } else {
            "nav-item"@
        }),
{
    if active {
        "nav-item active"
    } else {
        "nav-item"
    }
}

/// The style of a project in the side navigation: its accent, and a left
/// border in that colour when it is the selected one.
pub fn nav_item_style(accent: &str, active: bool) -> (r: String)
    ensures
        r@ == "--accent: "@ + accent@ + "; border-left-color: "@ + (if active {
            accent@
        } else {
            "transparent"@
        }) + ";"@,
{
    let mut r = String::from_str("--accent: ");
    r.append(accent);
    r.append("; border-left-color: ");
    if active {
        r.append(accent);
    } else {
        r.append("transparent");
    }
    r.append(";");
    r
}

/// The classes of the status dot of a log tab.
pub fn log_tab_dot_class(running: bool) -> (r: &'static str)
    ensures
        r@ == (if running {
            "log-tab-dot running"@
        } else {
            "log-tab-dot stopped"@
        }),
{
    if running {
        "log-tab-dot running"
    } else {
        "log-tab-dot stopped"
    }
}

/// The classes of a log tab.
pub fn log_tab_class(active: bool) -> (r: &'static str)
    ensures
        r@ == (if active {
            "log-tab active"@
        } else {
            "log-tab"@
        }),
{
    if active {
        "log-tab active"
    } else {
        "log-tab"
    }
}

/// The classes of a line of output: lines from standard error stand out.
pub fn log_line_class(line: &str) -> (r: &'static str)
    ensures
        r@ == (if "[err]"@.len() <= line@.len() && line@.subrange(0, "[err]"@.len() as int)
            == "[err]"@ {
            "log-line err"@
        } else {
            "log-line"@
        }),
{
    if starts_with(line, "[err]") {
        "log-line err"
    } else {
        "log-line"
    }
}

/// The classes of a text input.
pub fn text_input_class(monospace: bool) -> (r: &'static str)
    ensures
        r@ == (if monospace {
            "form-input monospace"@
        } else {
            "form-input"@
        }),
{
    if monospace {
        "form-input monospace"
    } else {
        "form-input"
    }
}

/// The classes of the confirm button of a dialog.
pub fn confirm_button_class(disabled: bool) -> (r: &'static str)
    ensures
        r@ == (if disabled {
            "btn-primary disabled"@
        } else {
            "btn-primary"@
        }),
{
    if disabled {
        "btn-primary disabled"
    } else {
        "btn-primary"
    }
}

} // verus!
