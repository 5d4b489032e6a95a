//! Page assembly from the header and footer templates.

use crate::convert::FileData;
use crate::text::{replace_all, substitute};
use vstd::prelude::*;

verus! {

/// The placeholder in the header that the page title replaces.
pub open spec fn title_placeholder() -> Seq<char> {
    "{title}"@
}

/// The header used where no header template exists.
pub open spec fn default_header() -> Seq<char> {
    "<html><head><title>{title}</title><body>"@
}

/// The footer used where no footer template exists.
pub open spec fn default_footer() -> Seq<char> {
    "</body></html>"@
}

/// The full text of a page: the header with the title substituted, the
/// rendered body, and the footer as it is.
pub open spec fn page_text(header: Seq<char>, footer: Seq<char>, title: Seq<char>, body: Seq<char>) -> Seq<char> {
    replace_all(header, title_placeholder(), title) + body + footer
}

/// The built-in header.
pub fn default_header_text() -> (r: String)
    ensures
        r@ == default_header(),
{
    String::from_str("<html><head><title>{title}</title><body>")
}

/// The built-in footer.
pub fn default_footer_text() -> (r: String)
    ensures
        r@ == default_footer(),
{
    String::from_str("</body></html>")
}

/// Wraps a converted document in the header and footer.
pub fn assemble(header: &str, footer: &str, file_data: &FileData) -> (r: String)
    ensures
        r@ == page_text(header@, footer@, file_data.title@, file_data.html_content@),
{
    let mut r = substitute(header, "{title}", file_data.title.as_str());
    r.append(file_data.html_content.as_str());
    r.append(footer);
    r
}

} // verus!
