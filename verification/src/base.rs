//! The frame that every page is rendered in.
use vstd::prelude::*;

verus! {

/// One entry of the navigation bar.
#[derive(Clone, Hash, Eq, PartialEq, Debug)]
pub struct NavItem {
    pub link: &'static str,
    pub name: &'static str,
    pub new_page: bool,
}

/// The navigation bar and the integrity value of the style sheet.
#[derive(Clone, Hash, Eq, PartialEq, Debug)]
pub struct Base {
    pub nav_items: [NavItem; 4],
    pub css_file_hash: String,
}

/// An entry as plain text.
pub struct NavItemText {
    pub link: Seq<char>,
    pub name: Seq<char>,
    pub new_page: bool,
}

impl View for NavItem {
    type V = NavItemText;

    open spec fn view(&self) -> NavItemText {
        NavItemText { link: self.link@, name: self.name@, new_page: self.new_page }
    }
}

/// The entries of the navigation bar, in the order in which they are shown.
pub open spec fn site_nav() -> Seq<NavItemText> {
    seq![
        NavItemText { link: "/code_art"@, name: "Code Art"@, new_page: false },
        NavItemText { link: "/blog"@, name: "Blog"@, new_page: false },
        NavItemText { link: "https://github.com/sameer"@, name: "GitHub"@, new_page: false },
        NavItemText { link: "/about"@, name: "About"@, new_page: false },
    ]
}

impl Base {
    /// The text of the entries.
    pub open spec fn nav(&self) -> Seq<NavItemText> {
        Seq::new(4, |i: int| self.nav_items@[i]@)
    }

    /// The site's frame, with the integrity value of its style sheet.
    pub fn new(css_file_hash: String) -> (base: Base)
        ensures
            base.nav() == site_nav(),
            base.css_file_hash@ == css_file_hash@,
    {
        let base = Base {
            nav_items: [
                NavItem { link: "/code_art", name: "Code Art", new_page: false },
                NavItem { link: "/blog", name: "Blog", new_page: false },
                NavItem { link: "https://github.com/sameer", name: "GitHub", new_page: false },
                NavItem { link: "/about", name: "About", new_page: false },
            ],
            css_file_hash,
        };
        assert(base.nav() =~= site_nav());
        base
    }
}

} // verus!
