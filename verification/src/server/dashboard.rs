//! The dashboard page: an HTML template with its CSS and script inlined and
//! the community id substituted.

use vstd::prelude::*;
use crate::text::{push_str, replace_all, replace_str};

verus! {

broadcast use vstd::string::group_string_axioms;

/// The community id made safe for HTML and for a JavaScript string: `&`,
/// `<` and `>` become entities and `"` is backslash-escaped.
pub open spec fn escape_community(c: Seq<char>) -> Seq<char> {
    replace_all(
        replace_all(replace_all(replace_all(c, "&"@, "&amp;"@), "<"@, "&lt;"@), ">"@, "&gt;"@),
        "\""@,
        "\\\""@,
    )
}

/// The page: `__STYLES__` replaced by the CSS, `__SCRIPT__` by a line that
/// sets the community followed by the script, and `__COMMUNITY__` by the
/// escaped community with its quotes unescaped.
pub open spec fn dashboard_spec(
    html: Seq<char>,
    styles: Seq<char>,
    script: Seq<char>,
    community: Seq<char>,
) -> Seq<char> {
    let safe = escape_community(community);
    let boot = "window.__ALMANAC_COMMUNITY__=\""@ + safe + "\";\n"@ + script;
    replace_all(
        replace_all(replace_all(html, "__STYLES__"@, styles), "__SCRIPT__"@, boot),
        "__COMMUNITY__"@,
        replace_all(safe, "\\\""@, "\""@),
    )
}

/// Build the dashboard page from its template, CSS and script for a
/// community.
pub fn dashboard_html(html: &str, styles: &str, script: &str, community: &str) -> (page: String)
    ensures
        page@ == dashboard_spec(html@, styles@, script@, community@),
{
    proof {
        reveal_strlit("&");
        reveal_strlit("<");
        reveal_strlit(">");
        reveal_strlit("\"");
        reveal_strlit("\\\"");
        reveal_strlit("__STYLES__");
        reveal_strlit("__SCRIPT__");
        reveal_strlit("__COMMUNITY__");
        assert("&"@.len() > 0);
        assert("<"@.len() > 0);
        assert(">"@.len() > 0);
        assert("\""@.len() > 0);
        assert("\\\""@.len() > 0);
        assert("__STYLES__"@.len() > 0);
        assert("__SCRIPT__"@.len() > 0);
        assert("__COMMUNITY__"@.len() > 0);
    }
    let s1 = replace_str(community, "&", "&amp;");
    let s2 = replace_str(&s1, "<", "&lt;");
    let s3 = replace_str(&s2, ">", "&gt;");
    let safe = replace_str(&s3, "\"", "\\\"");
    let mut boot = "window.__ALMANAC_COMMUNITY__=\"".to_owned();
    push_str(&mut boot, &safe);
    push_str(&mut boot, "\";\n");
    push_str(&mut boot, script);
    let unquoted = replace_str(&safe, "\\\"", "\"");
    let p1 = replace_str(html, "__STYLES__", styles);
    let p2 = replace_str(&p1, "__SCRIPT__", &boot);
    replace_str(&p2, "__COMMUNITY__", &unquoted)
}

} // verus!
