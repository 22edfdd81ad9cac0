//! The security contexts of DOM properties and attributes.

use vstd::prelude::*;
use vstd::string::*;
use crate::text::str_eq;
use crate::ir::SecurityContext;

verus! {

/// The Unicode lowercase mapping of a string.
pub uninterp spec fn lowercase(s: Seq<char>) -> Seq<char>;

/// `str::to_lowercase`: the Unicode lowercase mapping of `s`, a function of `s` alone.
#[verifier::external_body]
fn to_lowercase(s: &str) -> (r: String)
    ensures
        r@ == lowercase(s@),
{
    s.to_lowercase()
}

/// The property name that an attribute name stands for, for security purposes.
pub open spec fn spec_mapped_prop_name(attr: Seq<char>) -> Seq<char> {
    if attr == "class"@ { "className"@ }
    else if attr == "for"@ { "htmlFor"@ }
    else if attr == "formaction"@ { "formAction"@ }
    else if attr == "innerHtml"@ { "innerHTML"@ }
    else if attr == "readonly"@ { "readOnly"@ }
    else if attr == "tabindex"@ { "tabIndex"@ }
    else { attr }
}

fn mapped_prop_name(attr: &str) -> (r: String)
    ensures
        r@ == spec_mapped_prop_name(attr@),
{
    if str_eq(attr, "class") { String::from_str("className") }
    else if str_eq(attr, "for") { String::from_str("htmlFor") }
    else if str_eq(attr, "formaction") { String::from_str("formAction") }
    else if str_eq(attr, "innerHtml") { String::from_str("innerHTML") }
    else if str_eq(attr, "readonly") { String::from_str("readOnly") }
    else if str_eq(attr, "tabindex") { String::from_str("tabIndex") }
    else { attr.to_owned() }
}

/// The security schema: `tag|property` keys (lowercase, `*` for any tag) and their contexts.
pub open spec fn spec_schema_entry(key: Seq<char>) -> Option<SecurityContext> {
    if key == "iframe|srcdoc"@ || key == "*|innerhtml"@ || key == "*|outerhtml"@ {
        Some(SecurityContext::HTML)
    } else if key == "*|style"@ {
        Some(SecurityContext::STYLE)
    } else if key == "*|formaction"@ || key == "area|href"@ || key == "area|ping"@ || key
        == "audio|src"@ || key == "a|href"@ || key == "a|ping"@ || key == "blockquote|cite"@ || key
        == "body|background"@ || key == "del|cite"@ || key == "form|action"@ || key == "img|src"@
        || key == "input|src"@ || key == "ins|cite"@ || key == "q|cite"@ || key == "source|src"@
        || key == "track|src"@ || key == "video|poster"@ || key == "video|src"@ {
        Some(SecurityContext::URL)
    } else if key == "applet|code"@ || key == "applet|codebase"@ || key == "base|href"@ || key
        == "embed|src"@ || key == "frame|src"@ || key == "head|profile"@ || key == "html|manifest"@
        || key == "iframe|src"@ || key == "link|href"@ || key == "media|src"@ || key
        == "object|codebase"@ || key == "object|data"@ || key == "script|src"@ {
        Some(SecurityContext::RESOURCE_URL)
    } else {
        None
    }
}

fn schema_entry(key: &str) -> (r: Option<SecurityContext>)
    ensures
        r == spec_schema_entry(key@),
{
    if str_eq(key, "iframe|srcdoc") || str_eq(key, "*|innerhtml") || str_eq(key, "*|outerhtml") {
        Some(SecurityContext::HTML)
    } else if str_eq(key, "*|style") {
        Some(SecurityContext::STYLE)
    } else if str_eq(key, "*|formaction") || str_eq(key, "area|href") || str_eq(key, "area|ping")
        || str_eq(key, "audio|src") || str_eq(key, "a|href") || str_eq(key, "a|ping") || str_eq(
        key,
        "blockquote|cite",
    ) || str_eq(key, "body|background") || str_eq(key, "del|cite") || str_eq(key, "form|action")
        || str_eq(key, "img|src") || str_eq(key, "input|src") || str_eq(key, "ins|cite") || str_eq(
        key,
        "q|cite",
    ) || str_eq(key, "source|src") || str_eq(key, "track|src") || str_eq(key, "video|poster")
        || str_eq(key, "video|src") {
        Some(SecurityContext::URL)
    } else if str_eq(key, "applet|code") || str_eq(key, "applet|codebase") || str_eq(
        key,
        "base|href",
    ) || str_eq(key, "embed|src") || str_eq(key, "frame|src") || str_eq(key, "head|profile")
        || str_eq(key, "html|manifest") || str_eq(key, "iframe|src") || str_eq(key, "link|href")
        || str_eq(key, "media|src") || str_eq(key, "object|codebase") || str_eq(key, "object|data")
        || str_eq(key, "script|src") {
        Some(SecurityContext::RESOURCE_URL)
    } else {
        None
    }
}

/// The security context of a property (or attribute) of an element: the entry for the
/// lowercased `tag|property`, else the entry for `*|property`, else none. An attribute is
/// looked up by the property name it stands for.
pub open spec fn spec_security_context(tag: Seq<char>, prop: Seq<char>, is_attribute: bool) -> SecurityContext {
    let p = lowercase(if is_attribute { spec_mapped_prop_name(prop) } else { prop });
    let t = lowercase(tag);
    match spec_schema_entry(t + "|"@ + p) {
        Some(c) => c,
        None => match spec_schema_entry("*|"@ + p) {
            Some(c) => c,
            None => SecurityContext::NONE,
        },
    }
}

/// The security context of a property or attribute of an element.
pub fn security_context(tag_name: &str, prop_name: &str, is_attribute: bool) -> (r: SecurityContext)
    ensures
        r == spec_security_context(tag_name@, prop_name@, is_attribute),
{
    let prop = if is_attribute { mapped_prop_name(prop_name) } else { prop_name.to_owned() };
    let p = to_lowercase(prop.as_str());
    let t = to_lowercase(tag_name);
    let mut key = t;
    key.append("|");
    key.append(p.as_str());
    match schema_entry(key.as_str()) {
        Some(c) => c,
        None => {
            let mut any = String::from_str("*|");
            any.append(p.as_str());
            match schema_entry(any.as_str()) {
                Some(c) => c,
                None => SecurityContext::NONE,
            }
        },
    }
}

} // verus!
