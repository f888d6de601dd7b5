//! Assembly of the token stream into the report model.
//!
//! Each container walks its children in document order: elements it
//! knows are decoded structurally, whitespace between elements is
//! passed over, and unknown elements are skipped whole, so sparser
//! documents stay readable. Field values may stand as attributes or as
//! text-only child elements; the first occurrence of a name wins.
//! Required names that never occur fail the decode, as does a numeric
//! field that does not hold a number.

use crate::parser::policy::{
    FamilyItemV, FamilySelectionV, IndividualPluginSelectionV, PluginItemV, PluginPreferenceV,
    PolicyV, PreferencesV, ServerPreferenceV,
};
use crate::parser::report::{HostPropertiesV, ReportHostV, ReportItemV, ReportV, TagV};
use crate::parser::xml::{is_ws, Attr, AttrV, TokenV, XmlToken};
use crate::parser::Error;
use crate::parser::NessusClientDatav2V;
use crate::text::{parse_u64, str_eq, u64_of_text};
use vstd::prelude::*;

verus! {

/// Why a decode failed: malformed markup or structure, a required field
/// that never occurred, or a numeric field that does not hold a number.
pub enum FailureV {
    Markup,
    MissingField(Seq<char>),
    Number(Seq<char>),
}

/// Text that holds only markup whitespace.
pub open spec fn is_blank(t: Seq<char>) -> bool {
    forall|i: int| 0 <= i < t.len() ==> is_ws(t[i])
}

/// Clamps a token position to keep the walk moving forward.
pub open spec fn tok_step(toks: Seq<TokenV>, lo: int, e: int) -> int {
    if lo < e && e <= toks.len() {
        e
    } else {
        lo
    }
}

/// The position right after the current element's matching close, given
/// the walk stands right after its opening tag with `depth` elements
/// open; nothing when the document ends first. Only balance is checked
/// inside a skipped element, not name pairing.
pub open spec fn skip_element(toks: Seq<TokenV>, j: int, depth: int) -> Option<int>
    decreases toks.len() - j,
{
    if j < 0 || j >= toks.len() {
        None
    } else {
        match toks[j] {
            TokenV::Open { .. } => skip_element(toks, j + 1, depth + 1),
            TokenV::Close { .. } => {
                if depth <= 1 {
                    Some(j + 1)
                } else {
                    skip_element(toks, j + 1, depth - 1)
                }
            },
            _ => skip_element(toks, j + 1, depth),
        }
    }
}

/// Attributes read as name/value fields.
pub open spec fn attr_pairs(attrs: Seq<AttrV>) -> Seq<(Seq<char>, Seq<char>)> {
    attrs.map_values(|a: AttrV| (a.name, a.value))
}

/// The value of the first field with the given name, if any.
pub open spec fn lookup(fields: Seq<(Seq<char>, Seq<char>)>, name: Seq<char>) -> Option<Seq<char>>
    decreases fields.len(),
{
    if fields.len() == 0 {
        None
    } else if fields[0].0 == name {
        Some(fields[0].1)
    } else {
        lookup(fields.drop_first(), name)
    }
}

/// The name/value fields of a container up to its close: attributes do
/// not appear here, only text-only child elements; whitespace is passed
/// over and elements with nested markup are skipped. Nothing on a close
/// that does not match or on stray text.
pub open spec fn fields_until_close(toks: Seq<TokenV>, j: int, close: Seq<char>) -> Option<
    (Seq<(Seq<char>, Seq<char>)>, int),
>
    decreases toks.len() - j,
{
    if j < 0 || j >= toks.len() {
        None
    } else {
        match toks[j] {
            TokenV::Close { name } => {
                if name == close {
                    Some((Seq::empty(), j + 1))
                } else {
                    None
                }
            },
            TokenV::Text { value } => {
                if is_blank(value) {
                    fields_until_close(toks, j + 1, close)
                } else {
                    None
                }
            },
            TokenV::Empty { name, .. } => {
                match fields_until_close(toks, j + 1, close) {
                    None => None,
                    Some((fs, e)) => Some((seq![(name, Seq::<char>::empty())] + fs, e)),
                }
            },
            TokenV::Open { name, .. } => {
                if j + 1 >= toks.len() {
                    None
                } else {
                    match toks[j + 1] {
                        TokenV::Close { name: cn } => {
                            if cn == name {
                                match fields_until_close(toks, j + 2, close) {
                                    None => None,
                                    Some((fs, e)) => Some(
                                        (seq![(name, Seq::<char>::empty())] + fs, e),
                                    ),
                                }
                            } else {
                                None
                            }
                        },
                        TokenV::Text { value } => {
                            if j + 2 >= toks.len() {
                                None
                            } else {
                                match toks[j + 2] {
                                    TokenV::Close { name: cn } => {
                                        if cn == name {
                                            match fields_until_close(toks, j + 3, close) {
                                                None => None,
                                                Some((fs, e)) => Some(
                                                    (seq![(name, value)] + fs, e),
                                                ),
                                            }
                                        } else {
                                            None
                                        }
                                    },
                                    _ => {
                                        match skip_element(toks, j + 1, 1) {
                                            None => None,
                                            Some(e0) => fields_until_close(
                                                toks,
                                                tok_step(toks, j + 1, e0),
                                                close,
                                            ),
                                        }
                                    },
                                }
                            }
                        },
                        _ => {
                            match skip_element(toks, j + 1, 1) {
                                None => None,
                                Some(e0) => fields_until_close(
                                    toks,
                                    tok_step(toks, j + 1, e0),
                                    close,
                                ),
                            }
                        },
                    }
                }
            },
        }
    }
}

/// A required field: its value, or the missing name.
pub open spec fn req(fields: Seq<(Seq<char>, Seq<char>)>, name: Seq<char>) -> Result<
    Seq<char>,
    FailureV,
> {
    match lookup(fields, name) {
        Some(v) => Ok(v),
        None => Err(FailureV::MissingField(name)),
    }
}

/// A required numeric field: its value coerced, the missing name, or
/// the text that failed coercion.
pub open spec fn req_num(fields: Seq<(Seq<char>, Seq<char>)>, name: Seq<char>) -> Result<
    u64,
    FailureV,
> {
    match lookup(fields, name) {
        Some(v) => match u64_of_text(v) {
            Some(x) => Ok(x),
            None => Err(FailureV::Number(v)),
        },
        None => Err(FailureV::MissingField(name)),
    }
}

/// A finding, from its attributes and its child fields.
pub open spec fn item_of(attrs: Seq<AttrV>, fields: Seq<(Seq<char>, Seq<char>)>) -> Result<
    ReportItemV,
    FailureV,
> {
    let fs = attr_pairs(attrs) + fields;
    if req(fs, "port"@) is Err {
        Err(req(fs, "port"@)->Err_0)
    } else if req(fs, "svc_name"@) is Err {
        Err(req(fs, "svc_name"@)->Err_0)
    } else if req(fs, "protocol"@) is Err {
        Err(req(fs, "protocol"@)->Err_0)
    } else if req(fs, "severity"@) is Err {
        Err(req(fs, "severity"@)->Err_0)
    } else if req(fs, "pluginID"@) is Err {
        Err(req(fs, "pluginID"@)->Err_0)
    } else if req(fs, "pluginName"@) is Err {
        Err(req(fs, "pluginName"@)->Err_0)
    } else if req(fs, "pluginFamily"@) is Err {
        Err(req(fs, "pluginFamily"@)->Err_0)
    } else if req(fs, "description"@) is Err {
        Err(req(fs, "description"@)->Err_0)
    } else if req(fs, "fname"@) is Err {
        Err(req(fs, "fname"@)->Err_0)
    } else if req(fs, "plugin_modification_date"@) is Err {
        Err(req(fs, "plugin_modification_date"@)->Err_0)
    } else if req(fs, "plugin_publication_date"@) is Err {
        Err(req(fs, "plugin_publication_date"@)->Err_0)
    } else if req(fs, "plugin_type"@) is Err {
        Err(req(fs, "plugin_type"@)->Err_0)
    } else if req(fs, "risk_factor"@) is Err {
        Err(req(fs, "risk_factor"@)->Err_0)
    } else if req(fs, "script_version"@) is Err {
        Err(req(fs, "script_version"@)->Err_0)
    } else if req(fs, "solution"@) is Err {
        Err(req(fs, "solution"@)->Err_0)
    } else if req(fs, "synopsis"@) is Err {
        Err(req(fs, "synopsis"@)->Err_0)
    } else {
        Ok(
            ReportItemV {
                port: req(fs, "port"@)->Ok_0,
                svc_name: req(fs, "svc_name"@)->Ok_0,
                protocol: req(fs, "protocol"@)->Ok_0,
                severity: req(fs, "severity"@)->Ok_0,
                plugin_id: req(fs, "pluginID"@)->Ok_0,
                plugin_name: req(fs, "pluginName"@)->Ok_0,
                plugin_family: req(fs, "pluginFamily"@)->Ok_0,
                description: req(fs, "description"@)->Ok_0,
                fname: req(fs, "fname"@)->Ok_0,
                plugin_modification_date: req(fs, "plugin_modification_date"@)->Ok_0,
                plugin_publication_date: req(fs, "plugin_publication_date"@)->Ok_0,
                plugin_type: req(fs, "plugin_type"@)->Ok_0,
                risk_factor: req(fs, "risk_factor"@)->Ok_0,
                script_version: req(fs, "script_version"@)->Ok_0,
                solution: req(fs, "solution"@)->Ok_0,
                synopsis: req(fs, "synopsis"@)->Ok_0,
                plugin_output: lookup(fs, "plugin_output"@),
            },
        )
    }
}

/// A server-wide preference, from its child fields.
pub open spec fn server_pref_of(fields: Seq<(Seq<char>, Seq<char>)>) -> Result<
    ServerPreferenceV,
    FailureV,
> {
    if req(fields, "name"@) is Err {
        Err(req(fields, "name"@)->Err_0)
    } else if req(fields, "value"@) is Err {
        Err(req(fields, "value"@)->Err_0)
    } else {
        Ok(
            ServerPreferenceV {
                name: req(fields, "name"@)->Ok_0,
                value: req(fields, "value"@)->Ok_0,
            },
        )
    }
}

/// A per-plugin preference, from its child fields.
pub open spec fn plugin_pref_of(fields: Seq<(Seq<char>, Seq<char>)>) -> Result<
    PluginPreferenceV,
    FailureV,
> {
    if req(fields, "pluginName"@) is Err {
        Err(req(fields, "pluginName"@)->Err_0)
    } else if req_num(fields, "pluginId"@) is Err {
        Err(req_num(fields, "pluginId"@)->Err_0)
    } else if req(fields, "fullName"@) is Err {
        Err(req(fields, "fullName"@)->Err_0)
    } else if req(fields, "preferenceName"@) is Err {
        Err(req(fields, "preferenceName"@)->Err_0)
    } else if req(fields, "preferenceType"@) is Err {
        Err(req(fields, "preferenceType"@)->Err_0)
    } else if req(fields, "preferenceValues"@) is Err {
        Err(req(fields, "preferenceValues"@)->Err_0)
    } else if req(fields, "selectedValue"@) is Err {
        Err(req(fields, "selectedValue"@)->Err_0)
    } else {
        Ok(
            PluginPreferenceV {
                plugin_name: req(fields, "pluginName"@)->Ok_0,
                plugin_id: req_num(fields, "pluginId"@)->Ok_0,
                full_name: req(fields, "fullName"@)->Ok_0,
                preference_name: req(fields, "preferenceName"@)->Ok_0,
                preference_type: req(fields, "preferenceType"@)->Ok_0,
                preference_values: req(fields, "preferenceValues"@)->Ok_0,
                selected_value: req(fields, "selectedValue"@)->Ok_0,
            },
        )
    }
}

/// A plugin family's enablement entry, from its child fields.
pub open spec fn family_item_of(fields: Seq<(Seq<char>, Seq<char>)>) -> Result<
    FamilyItemV,
    FailureV,
> {
    if req(fields, "FamilyName"@) is Err {
        Err(req(fields, "FamilyName"@)->Err_0)
    } else if req(fields, "Status"@) is Err {
        Err(req(fields, "Status"@)->Err_0)
    } else {
        Ok(
            FamilyItemV {
                family_name: req(fields, "FamilyName"@)->Ok_0,
                status: req(fields, "Status"@)->Ok_0,
            },
        )
    }
}

/// An individually selected plugin, from its child fields.
pub open spec fn plugin_item_of(fields: Seq<(Seq<char>, Seq<char>)>) -> Result<
    PluginItemV,
    FailureV,
> {
    if req_num(fields, "PluginId"@) is Err {
        Err(req_num(fields, "PluginId"@)->Err_0)
    } else if req(fields, "PluginName"@) is Err {
        Err(req(fields, "PluginName"@)->Err_0)
    } else if req(fields, "Family"@) is Err {
        Err(req(fields, "Family"@)->Err_0)
    } else if req(fields, "Status"@) is Err {
        Err(req(fields, "Status"@)->Err_0)
    } else {
        Ok(
            PluginItemV {
                plugin_id: req_num(fields, "PluginId"@)->Ok_0,
                plugin_name: req(fields, "PluginName"@)->Ok_0,
                family: req(fields, "Family"@)->Ok_0,
                status: req(fields, "Status"@)->Ok_0,
            },
        )
    }
}

/// The text-only content of the element just opened, and the position
/// right after its matching close; nothing when nested markup follows.
pub open spec fn simple_content(toks: Seq<TokenV>, j: int, name: Seq<char>) -> Option<
    (Seq<char>, int),
> {
    if j < 0 || j >= toks.len() {
        None
    } else {
        match toks[j] {
            TokenV::Close { name: cn } => {
                if cn == name {
                    Some((Seq::empty(), j + 1))
                } else {
                    None
                }
            },
            TokenV::Text { value } => {
                if j + 1 < toks.len() {
                    match toks[j + 1] {
                        TokenV::Close { name: cn } => {
                            if cn == name {
                                Some((value, j + 2))
                            } else {
                                None
                            }
                        },
                        _ => None,
                    }
                } else {
                    None
                }
            },
            _ => None,
        }
    }
}

/// The tags of a host-properties block, up to its close. Unknown
/// children are skipped; a tag without its `name` attribute fails.
pub open spec fn tags_of(toks: Seq<TokenV>, j: int) -> Result<(Seq<TagV>, int), FailureV>
    decreases toks.len() - j,
{
    if j < 0 || j >= toks.len() {
        Err(FailureV::Markup)
    } else {
        match toks[j] {
            TokenV::Close { name } => {
                if name == "HostProperties"@ {
                    Ok((Seq::empty(), j + 1))
                } else {
                    Err(FailureV::Markup)
                }
            },
            TokenV::Text { value } => {
                if is_blank(value) {
                    tags_of(toks, j + 1)
                } else {
                    Err(FailureV::Markup)
                }
            },
            TokenV::Empty { name, attrs } => {
                if name == "tag"@ {
                    match req(attr_pairs(attrs), "name"@) {
                        Err(f) => Err(f),
                        Ok(nm) => match tags_of(toks, j + 1) {
                            Err(f) => Err(f),
                            Ok((ts, e)) => Ok(
                                (seq![TagV { name: nm, value: Seq::empty() }] + ts, e),
                            ),
                        },
                    }
                } else {
                    tags_of(toks, j + 1)
                }
            },
            TokenV::Open { name, attrs } => {
                if name == "tag"@ {
                    match simple_content(toks, j + 1, "tag"@) {
                        None => Err(FailureV::Markup),
                        Some((v, e)) => match req(attr_pairs(attrs), "name"@) {
                            Err(f) => Err(f),
                            Ok(nm) => match tags_of(toks, tok_step(toks, j + 1, e)) {
                                Err(f) => Err(f),
                                Ok((ts, e2)) => Ok((seq![TagV { name: nm, value: v }] + ts, e2)),
                            },
                        },
                    }
                } else {
                    match skip_element(toks, j + 1, 1) {
                        None => Err(FailureV::Markup),
                        Some(e0) => tags_of(toks, tok_step(toks, j + 1, e0)),
                    }
                }
            },
        }
    }
}

/// A host, from its attributes, its collected simple fields, its
/// property block, and its findings.
pub open spec fn host_of(
    attrs: Seq<AttrV>,
    fields: Seq<(Seq<char>, Seq<char>)>,
    hp: Option<HostPropertiesV>,
    items: Seq<ReportItemV>,
) -> Result<ReportHostV, FailureV> {
    let fs = attr_pairs(attrs) + fields;
    if req(fs, "name"@) is Err {
        Err(req(fs, "name"@)->Err_0)
    } else {
        match hp {
            None => Err(FailureV::MissingField("host_properties"@)),
            Some(p) => Ok(
                ReportHostV {
                    name: req(fs, "name"@)->Ok_0,
                    host_properties: p,
                    report_items: items,
                },
            ),
        }
    }
}

/// The children of a host element up to its close: its simple fields,
/// its property block, and its findings in document order. A second
/// property block fails the decode.
pub open spec fn host_children(toks: Seq<TokenV>, j: int) -> Result<
    (Seq<(Seq<char>, Seq<char>)>, Option<HostPropertiesV>, Seq<ReportItemV>, int),
    FailureV,
>
    decreases toks.len() - j,
{
    if j < 0 || j >= toks.len() {
        Err(FailureV::Markup)
    } else {
        match toks[j] {
            TokenV::Close { name } => {
                if name == "ReportHost"@ {
                    Ok((Seq::empty(), None, Seq::empty(), j + 1))
                } else {
                    Err(FailureV::Markup)
                }
            },
            TokenV::Text { value } => {
                if is_blank(value) {
                    host_children(toks, j + 1)
                } else {
                    Err(FailureV::Markup)
                }
            },
            TokenV::Empty { name, attrs } => {
                if name == "HostProperties"@ {
                    match host_children(toks, j + 1) {
                        Err(f) => Err(f),
                        Ok((fs, hp, its, e)) => {
                            if hp is Some {
                                Err(FailureV::Markup)
                            } else {
                                Ok((fs, Some(HostPropertiesV { tags: Seq::empty() }), its, e))
                            }
                        },
                    }
                } else if name == "ReportItem"@ {
                    match item_of(attrs, Seq::empty()) {
                        Err(f) => Err(f),
                        Ok(it) => match host_children(toks, j + 1) {
                            Err(f) => Err(f),
                            Ok((fs, hp, its, e)) => Ok((fs, hp, seq![it] + its, e)),
                        },
                    }
                } else {
                    match host_children(toks, j + 1) {
                        Err(f) => Err(f),
                        Ok((fs, hp, its, e)) => Ok(
                            (seq![(name, Seq::<char>::empty())] + fs, hp, its, e),
                        ),
                    }
                }
            },
            TokenV::Open { name, attrs } => {
                if name == "HostProperties"@ {
                    match tags_of(toks, j + 1) {
                        Err(f) => Err(f),
                        Ok((ts, e)) => match host_children(toks, tok_step(toks, j + 1, e)) {
                            Err(f) => Err(f),
                            Ok((fs, hp, its, end)) => {
                                if hp is Some {
                                    Err(FailureV::Markup)
                                } else {
                                    Ok((fs, Some(HostPropertiesV { tags: ts }), its, end))
                                }
                            },
                        },
                    }
                } else if name == "ReportItem"@ {
                    match fields_until_close(toks, j + 1, "ReportItem"@) {
                        None => Err(FailureV::Markup),
                        Some((ifs, e)) => match item_of(attrs, ifs) {
                            Err(f) => Err(f),
                            Ok(it) => match host_children(toks, tok_step(toks, j + 1, e)) {
                                Err(f) => Err(f),
                                Ok((fs, hp, its, end)) => Ok((fs, hp, seq![it] + its, end)),
                            },
                        },
                    }
                } else {
                    match simple_content(toks, j + 1, name) {
                        Some((v, e)) => match host_children(toks, tok_step(toks, j + 1, e)) {
                            Err(f) => Err(f),
                            Ok((fs, hp, its, end)) => Ok((seq![(name, v)] + fs, hp, its, end)),
                        },
                        None => match skip_element(toks, j + 1, 1) {
                            None => Err(FailureV::Markup),
                            Some(e0) => host_children(toks, tok_step(toks, j + 1, e0)),
                        },
                    }
                }
            },
        }
    }
}

/// A report, from its attributes, its collected simple fields, and its
/// hosts.
pub open spec fn report_of(
    attrs: Seq<AttrV>,
    fields: Seq<(Seq<char>, Seq<char>)>,
    hosts: Seq<ReportHostV>,
) -> Result<ReportV, FailureV> {
    let fs = attr_pairs(attrs) + fields;
    if req(fs, "name"@) is Err {
        Err(req(fs, "name"@)->Err_0)
    } else {
        Ok(ReportV { name: req(fs, "name"@)->Ok_0, report_hosts: hosts })
    }
}

/// The children of the report element up to its close: its simple
/// fields and its hosts in document order.
pub open spec fn report_children(toks: Seq<TokenV>, j: int) -> Result<
    (Seq<(Seq<char>, Seq<char>)>, Seq<ReportHostV>, int),
    FailureV,
>
    decreases toks.len() - j,
{
    if j < 0 || j >= toks.len() {
        Err(FailureV::Markup)
    } else {
        match toks[j] {
            TokenV::Close { name } => {
                if name == "Report"@ {
                    Ok((Seq::empty(), Seq::empty(), j + 1))
                } else {
                    Err(FailureV::Markup)
                }
            },
            TokenV::Text { value } => {
                if is_blank(value) {
                    report_children(toks, j + 1)
                } else {
                    Err(FailureV::Markup)
                }
            },
            TokenV::Empty { name, attrs } => {
                if name == "ReportHost"@ {
                    match host_of(attrs, Seq::empty(), None, Seq::empty()) {
                        Err(f) => Err(f),
                        Ok(h) => match report_children(toks, j + 1) {
                            Err(f) => Err(f),
                            Ok((fs, hs, e)) => Ok((fs, seq![h] + hs, e)),
                        },
                    }
                } else {
                    match report_children(toks, j + 1) {
                        Err(f) => Err(f),
                        Ok((fs, hs, e)) => Ok((seq![(name, Seq::<char>::empty())] + fs, hs, e)),
                    }
                }
            },
            TokenV::Open { name, attrs } => {
                if name == "ReportHost"@ {
                    match host_children(toks, j + 1) {
                        Err(f) => Err(f),
                        Ok((hfs, hp, its, e)) => match host_of(attrs, hfs, hp, its) {
                            Err(f) => Err(f),
                            Ok(h) => match report_children(toks, tok_step(toks, j + 1, e)) {
                                Err(f) => Err(f),
                                Ok((fs, hs, end)) => Ok((fs, seq![h] + hs, end)),
                            },
                        },
                    }
                } else {
                    match simple_content(toks, j + 1, name) {
                        Some((v, e)) => match report_children(toks, tok_step(toks, j + 1, e)) {
                            Err(f) => Err(f),
                            Ok((fs, hs, end)) => Ok((seq![(name, v)] + fs, hs, end)),
                        },
                        None => match skip_element(toks, j + 1, 1) {
                            None => Err(FailureV::Markup),
                            Some(e0) => report_children(toks, tok_step(toks, j + 1, e0)),
                        },
                    }
                }
            },
        }
    }
}

/// The entries of the server-preference list, up to its close.
pub open spec fn server_prefs_list(toks: Seq<TokenV>, j: int) -> Result<
    (Seq<ServerPreferenceV>, int),
    FailureV,
>
    decreases toks.len() - j,
{
    if j < 0 || j >= toks.len() {
        Err(FailureV::Markup)
    } else {
        match toks[j] {
            TokenV::Close { name } => {
                if name == "ServerPreferences"@ {
                    Ok((Seq::empty(), j + 1))
                } else {
                    Err(FailureV::Markup)
                }
            },
            TokenV::Text { value } => {
                if is_blank(value) {
                    server_prefs_list(toks, j + 1)
                } else {
                    Err(FailureV::Markup)
                }
            },
            TokenV::Empty { name, .. } => {
                if name == "preference"@ {
                    match server_pref_of(Seq::empty()) {
                        Err(f) => Err(f),
                        Ok(p) => match server_prefs_list(toks, j + 1) {
                            Err(f) => Err(f),
                            Ok((ps, e)) => Ok((seq![p] + ps, e)),
                        },
                    }
                } else {
                    server_prefs_list(toks, j + 1)
                }
            },
            TokenV::Open { name, .. } => {
                if name == "preference"@ {
                    match fields_until_close(toks, j + 1, "preference"@) {
                        None => Err(FailureV::Markup),
                        Some((fs, e)) => match server_pref_of(fs) {
                            Err(f) => Err(f),
                            Ok(p) => match server_prefs_list(toks, tok_step(toks, j + 1, e)) {
                                Err(f) => Err(f),
                                Ok((ps, end)) => Ok((seq![p] + ps, end)),
                            },
                        },
                    }
                } else {
                    match skip_element(toks, j + 1, 1) {
                        None => Err(FailureV::Markup),
                        Some(e0) => server_prefs_list(toks, tok_step(toks, j + 1, e0)),
                    }
                }
            },
        }
    }
}

/// The entries of the plugin-preference list, up to its close.
pub open spec fn plugin_prefs_list(toks: Seq<TokenV>, j: int) -> Result<
    (Seq<PluginPreferenceV>, int),
    FailureV,
>
    decreases toks.len() - j,
{
    if j < 0 || j >= toks.len() {
        Err(FailureV::Markup)
    } else {
        match toks[j] {
            TokenV::Close { name } => {
                if name == "PluginsPreferences"@ {
                    Ok((Seq::empty(), j + 1))
                } else {
                    Err(FailureV::Markup)
                }
            },
            TokenV::Text { value } => {
                if is_blank(value) {
                    plugin_prefs_list(toks, j + 1)
                } else {
                    Err(FailureV::Markup)
                }
            },
            TokenV::Empty { name, .. } => {
                if name == "item"@ {
                    match plugin_pref_of(Seq::empty()) {
                        Err(f) => Err(f),
                        Ok(p) => match plugin_prefs_list(toks, j + 1) {
                            Err(f) => Err(f),
                            Ok((ps, e)) => Ok((seq![p] + ps, e)),
                        },
                    }
                } else {
                    plugin_prefs_list(toks, j + 1)
                }
            },
            TokenV::Open { name, .. } => {
                if name == "item"@ {
                    match fields_until_close(toks, j + 1, "item"@) {
                        None => Err(FailureV::Markup),
                        Some((fs, e)) => match plugin_pref_of(fs) {
                            Err(f) => Err(f),
                            Ok(p) => match plugin_prefs_list(toks, tok_step(toks, j + 1, e)) {
                                Err(f) => Err(f),
                                Ok((ps, end)) => Ok((seq![p] + ps, end)),
                            },
                        },
                    }
                } else {
                    match skip_element(toks, j + 1, 1) {
                        None => Err(FailureV::Markup),
                        Some(e0) => plugin_prefs_list(toks, tok_step(toks, j + 1, e0)),
                    }
                }
            },
        }
    }
}

/// The entries of the family-selection list, up to its close.
pub open spec fn family_list(toks: Seq<TokenV>, j: int) -> Result<(Seq<FamilyItemV>, int), FailureV>
    decreases toks.len() - j,
{
    if j < 0 || j >= toks.len() {
        Err(FailureV::Markup)
    } else {
        match toks[j] {
            TokenV::Close { name } => {
                if name == "FamilySelection"@ {
                    Ok((Seq::empty(), j + 1))
                } else {
                    Err(FailureV::Markup)
                }
            },
            TokenV::Text { value } => {
                if is_blank(value) {
                    family_list(toks, j + 1)
                } else {
                    Err(FailureV::Markup)
                }
            },
            TokenV::Empty { name, .. } => {
                if name == "FamilyItem"@ {
                    match family_item_of(Seq::empty()) {
                        Err(f) => Err(f),
                        Ok(p) => match family_list(toks, j + 1) {
                            Err(f) => Err(f),
                            Ok((ps, e)) => Ok((seq![p] + ps, e)),
                        },
                    }
                } else {
                    family_list(toks, j + 1)
                }
            },
            TokenV::Open { name, .. } => {
                if name == "FamilyItem"@ {
                    match fields_until_close(toks, j + 1, "FamilyItem"@) {
                        None => Err(FailureV::Markup),
                        Some((fs, e)) => match family_item_of(fs) {
                            Err(f) => Err(f),
                            Ok(p) => match family_list(toks, tok_step(toks, j + 1, e)) {
                                Err(f) => Err(f),
                                Ok((ps, end)) => Ok((seq![p] + ps, end)),
                            },
                        },
                    }
                } else {
                    match skip_element(toks, j + 1, 1) {
                        None => Err(FailureV::Markup),
                        Some(e0) => family_list(toks, tok_step(toks, j + 1, e0)),
                    }
                }
            },
        }
    }
}

/// The entries of the individual plugin selection, up to its close.
pub open spec fn plugin_sel_list(toks: Seq<TokenV>, j: int) -> Result<
    (Seq<PluginItemV>, int),
    FailureV,
>
    decreases toks.len() - j,
{
    if j < 0 || j >= toks.len() {
        Err(FailureV::Markup)
    } else {
        match toks[j] {
            TokenV::Close { name } => {
                if name == "IndividualPluginSelection"@ {
                    Ok((Seq::empty(), j + 1))
                } else {
                    Err(FailureV::Markup)
                }
            },
            TokenV::Text { value } => {
                if is_blank(value) {
                    plugin_sel_list(toks, j + 1)
                } else {
                    Err(FailureV::Markup)
                }
            },
            TokenV::Empty { name, .. } => {
                if name == "PluginItem"@ {
                    match plugin_item_of(Seq::empty()) {
                        Err(f) => Err(f),
                        Ok(p) => match plugin_sel_list(toks, j + 1) {
                            Err(f) => Err(f),
                            Ok((ps, e)) => Ok((seq![p] + ps, e)),
                        },
                    }
                } else {
                    plugin_sel_list(toks, j + 1)
                }
            },
            TokenV::Open { name, .. } => {
                if name == "PluginItem"@ {
                    match fields_until_close(toks, j + 1, "PluginItem"@) {
                        None => Err(FailureV::Markup),
                        Some((fs, e)) => match plugin_item_of(fs) {
                            Err(f) => Err(f),
                            Ok(p) => match plugin_sel_list(toks, tok_step(toks, j + 1, e)) {
                                Err(f) => Err(f),
                                Ok((ps, end)) => Ok((seq![p] + ps, end)),
                            },
                        },
                    }
                } else {
                    match skip_element(toks, j + 1, 1) {
                        None => Err(FailureV::Markup),
                        Some(e0) => plugin_sel_list(toks, tok_step(toks, j + 1, e0)),
                    }
                }
            },
        }
    }
}

/// Preferences, from their two lists; each is required.
pub open spec fn prefs_of(
    sp: Option<Seq<ServerPreferenceV>>,
    pp: Option<Seq<PluginPreferenceV>>,
) -> Result<PreferencesV, FailureV> {
    match sp {
        None => Err(FailureV::MissingField("server_preferences"@)),
        Some(s) => match pp {
            None => Err(FailureV::MissingField("plugins_preferences"@)),
            Some(p) => Ok(PreferencesV { server_preferences: s, plugins_preferences: p }),
        },
    }
}

/// The children of the preferences element up to its close: its two
/// lists. A duplicated list fails the decode.
pub open spec fn prefs_children(toks: Seq<TokenV>, j: int) -> Result<
    (Option<Seq<ServerPreferenceV>>, Option<Seq<PluginPreferenceV>>, int),
    FailureV,
>
    decreases toks.len() - j,
{
    if j < 0 || j >= toks.len() {
        Err(FailureV::Markup)
    } else {
        match toks[j] {
            TokenV::Close { name } => {
                if name == "Preferences"@ {
                    Ok((None, None, j + 1))
                } else {
                    Err(FailureV::Markup)
                }
            },
            TokenV::Text { value } => {
                if is_blank(value) {
                    prefs_children(toks, j + 1)
                } else {
                    Err(FailureV::Markup)
                }
            },
            TokenV::Empty { name, .. } => {
                if name == "ServerPreferences"@ {
                    match prefs_children(toks, j + 1) {
                        Err(f) => Err(f),
                        Ok((sp, pp, e)) => {
                            if sp is Some {
                                Err(FailureV::Markup)
                            } else {
                                Ok((Some(Seq::<ServerPreferenceV>::empty()), pp, e))
                            }
                        },
                    }
                } else if name == "PluginsPreferences"@ {
                    match prefs_children(toks, j + 1) {
                        Err(f) => Err(f),
                        Ok((sp, pp, e)) => {
                            if pp is Some {
                                Err(FailureV::Markup)
                            } else {
                                Ok((sp, Some(Seq::<PluginPreferenceV>::empty()), e))
                            }
                        },
                    }
                } else {
                    prefs_children(toks, j + 1)
                }
            },
            TokenV::Open { name, .. } => {
                if name == "ServerPreferences"@ {
                    match server_prefs_list(toks, j + 1) {
                        Err(f) => Err(f),
                        Ok((ps, e)) => match prefs_children(toks, tok_step(toks, j + 1, e)) {
                            Err(f) => Err(f),
                            Ok((sp, pp, end)) => {
                                if sp is Some {
                                    Err(FailureV::Markup)
                                } else {
                                    Ok((Some(ps), pp, end))
                                }
                            },
                        },
                    }
                } else if name == "PluginsPreferences"@ {
                    match plugin_prefs_list(toks, j + 1) {
                        Err(f) => Err(f),
                        Ok((ps, e)) => match prefs_children(toks, tok_step(toks, j + 1, e)) {
                            Err(f) => Err(f),
                            Ok((sp, pp, end)) => {
                                if pp is Some {
                                    Err(FailureV::Markup)
                                } else {
                                    Ok((sp, Some(ps), end))
                                }
                            },
                        },
                    }
                } else {
                    match skip_element(toks, j + 1, 1) {
                        None => Err(FailureV::Markup),
                        Some(e0) => prefs_children(toks, tok_step(toks, j + 1, e0)),
                    }
                }
            },
        }
    }
}

/// A policy, from its three sections; each is required.
pub open spec fn policy_of(
    p: Option<PreferencesV>,
    f: Option<Seq<FamilyItemV>>,
    ip: Option<Seq<PluginItemV>>,
) -> Result<PolicyV, FailureV> {
    match p {
        None => Err(FailureV::MissingField("preferences"@)),
        Some(pp) => match f {
            None => Err(FailureV::MissingField("family_selection"@)),
            Some(ff) => match ip {
                None => Err(FailureV::MissingField("individual_plugin_selection"@)),
                Some(ii) => Ok(
                    PolicyV {
                        preferences: pp,
                        family_selection: FamilySelectionV { family_items: ff },
                        individual_plugin_selection: IndividualPluginSelectionV {
                            plugin_items: ii,
                        },
                    },
                ),
            },
        },
    }
}

/// The children of the policy element up to its close: its three
/// sections. Unknown children are skipped; a duplicated section fails
/// the decode.
pub open spec fn policy_children(toks: Seq<TokenV>, j: int) -> Result<
    (Option<PreferencesV>, Option<Seq<FamilyItemV>>, Option<Seq<PluginItemV>>, int),
    FailureV,
>
    decreases toks.len() - j,
{
    if j < 0 || j >= toks.len() {
        Err(FailureV::Markup)
    } else {
        match toks[j] {
            TokenV::Close { name } => {
                if name == "Policy"@ {
                    Ok((None, None, None, j + 1))
                } else {
                    Err(FailureV::Markup)
                }
            },
            TokenV::Text { value } => {
                if is_blank(value) {
                    policy_children(toks, j + 1)
                } else {
                    Err(FailureV::Markup)
                }
            },
            TokenV::Empty { name, .. } => {
                if name == "Preferences"@ {
                    match prefs_of(None, None) {
                        Err(f) => Err(f),
                        Ok(p) => match policy_children(toks, j + 1) {
                            Err(f) => Err(f),
                            Ok((op, of, oi, e)) => {
                                if op is Some {
                                    Err(FailureV::Markup)
                                } else {
                                    Ok((Some(p), of, oi, e))
                                }
                            },
                        },
                    }
                } else if name == "FamilySelection"@ {
                    match policy_children(toks, j + 1) {
                        Err(f) => Err(f),
                        Ok((op, of, oi, e)) => {
                            if of is Some {
                                Err(FailureV::Markup)
                            } else {
                                Ok((op, Some(Seq::<FamilyItemV>::empty()), oi, e))
                            }
                        },
                    }
                } else if name == "IndividualPluginSelection"@ {
                    match policy_children(toks, j + 1) {
                        Err(f) => Err(f),
                        Ok((op, of, oi, e)) => {
                            if oi is Some {
                                Err(FailureV::Markup)
                            } else {
                                Ok((op, of, Some(Seq::<PluginItemV>::empty()), e))
                            }
                        },
                    }
                } else {
                    policy_children(toks, j + 1)
                }
            },
            TokenV::Open { name, .. } => {
                if name == "Preferences"@ {
                    match prefs_children(toks, j + 1) {
                        Err(f) => Err(f),
                        Ok((sp, pp, e)) => match prefs_of(sp, pp) {
                            Err(f) => Err(f),
                            Ok(p) => match policy_children(toks, tok_step(toks, j + 1, e)) {
                                Err(f) => Err(f),
                                Ok((op, of, oi, end)) => {
                                    if op is Some {
                                        Err(FailureV::Markup)
                                    } else {
                                        Ok((Some(p), of, oi, end))
                                    }
                                },
                            },
                        },
                    }
                } else if name == "FamilySelection"@ {
                    match family_list(toks, j + 1) {
                        Err(f) => Err(f),
                        Ok((ps, e)) => match policy_children(toks, tok_step(toks, j + 1, e)) {
                            Err(f) => Err(f),
                            Ok((op, of, oi, end)) => {
                                if of is Some {
                                    Err(FailureV::Markup)
                                } else {
                                    Ok((op, Some(ps), oi, end))
                                }
                            },
                        },
                    }
                } else if name == "IndividualPluginSelection"@ {
                    match plugin_sel_list(toks, j + 1) {
                        Err(f) => Err(f),
                        Ok((ps, e)) => match policy_children(toks, tok_step(toks, j + 1, e)) {
                            Err(f) => Err(f),
                            Ok((op, of, oi, end)) => {
                                if oi is Some {
                                    Err(FailureV::Markup)
                                } else {
                                    Ok((op, of, Some(ps), end))
                                }
                            },
                        },
                    }
                } else {
                    match skip_element(toks, j + 1, 1) {
                        None => Err(FailureV::Markup),
                        Some(e0) => policy_children(toks, tok_step(toks, j + 1, e0)),
                    }
                }
            },
        }
    }
}

/// The children of the document root up to its close: the report and
/// the policy section, each at most once.
pub open spec fn root_children(toks: Seq<TokenV>, j: int) -> Result<
    (Option<ReportV>, Option<PolicyV>, int),
    FailureV,
>
    decreases toks.len() - j,
{
    if j < 0 || j >= toks.len() {
        Err(FailureV::Markup)
    } else {
        match toks[j] {
            TokenV::Close { name } => {
                if name == "NessusClientData_v2"@ {
                    Ok((None, None, j + 1))
                } else {
                    Err(FailureV::Markup)
                }
            },
            TokenV::Text { value } => {
                if is_blank(value) {
                    root_children(toks, j + 1)
                } else {
                    Err(FailureV::Markup)
                }
            },
            TokenV::Empty { name, attrs } => {
                if name == "Report"@ {
                    match report_of(attrs, Seq::empty(), Seq::empty()) {
                        Err(f) => Err(f),
                        Ok(r) => match root_children(toks, j + 1) {
                            Err(f) => Err(f),
                            Ok((or, op, e)) => {
                                if or is Some {
                                    Err(FailureV::Markup)
                                } else {
                                    Ok((Some(r), op, e))
                                }
                            },
                        },
                    }
                } else if name == "Policy"@ {
                    match policy_of(None, None, None) {
                        Err(f) => Err(f),
                        Ok(p) => match root_children(toks, j + 1) {
                            Err(f) => Err(f),
                            Ok((or, op, e)) => {
                                if op is Some {
                                    Err(FailureV::Markup)
                                } else {
                                    Ok((or, Some(p), e))
                                }
                            },
                        },
                    }
                } else {
                    root_children(toks, j + 1)
                }
            },
            TokenV::Open { name, attrs } => {
                if name == "Report"@ {
                    match report_children(toks, j + 1) {
                        Err(f) => Err(f),
                        Ok((fs, hs, e)) => match report_of(attrs, fs, hs) {
                            Err(f) => Err(f),
                            Ok(r) => match root_children(toks, tok_step(toks, j + 1, e)) {
                                Err(f) => Err(f),
                                Ok((or, op, end)) => {
                                    if or is Some {
                                        Err(FailureV::Markup)
                                    } else {
                                        Ok((Some(r), op, end))
                                    }
                                },
                            },
                        },
                    }
                } else if name == "Policy"@ {
                    match policy_children(toks, j + 1) {
                        Err(f) => Err(f),
                        Ok((p, fam, ip, e)) => match policy_of(p, fam, ip) {
                            Err(f) => Err(f),
                            Ok(pv) => match root_children(toks, tok_step(toks, j + 1, e)) {
                                Err(f) => Err(f),
                                Ok((or, op, end)) => {
                                    if op is Some {
                                        Err(FailureV::Markup)
                                    } else {
                                        Ok((or, Some(pv), end))
                                    }
                                },
                            },
                        },
                    }
                } else {
                    match skip_element(toks, j + 1, 1) {
                        None => Err(FailureV::Markup),
                        Some(e0) => root_children(toks, tok_step(toks, j + 1, e0)),
                    }
                }
            },
        }
    }
}

/// The position after any leading whitespace-only text tokens.
pub open spec fn skip_blank(toks: Seq<TokenV>, j: int) -> int
    decreases toks.len() - j,
{
    if j < 0 || j >= toks.len() {
        j
    } else {
        match toks[j] {
            TokenV::Text { value } => {
                if is_blank(value) {
                    skip_blank(toks, j + 1)
                } else {
                    j
                }
            },
            _ => j,
        }
    }
}

/// The model a token stream decodes to: one root element holding the
/// report and the policy sections, with nothing but whitespace around
/// it.
pub open spec fn document_of(toks: Seq<TokenV>) -> Result<NessusClientDatav2V, FailureV> {
    let j = at_least_tok(0, skip_blank(toks, 0));
    if j >= toks.len() {
        Err(FailureV::Markup)
    } else {
        match toks[j] {
            TokenV::Open { name, .. } => {
                if name == "NessusClientData_v2"@ {
                    match root_children(toks, j + 1) {
                        Err(f) => Err(f),
                        Ok((or, op, e)) => {
                            match or {
                                None => Err(FailureV::MissingField("report"@)),
                                Some(rv) => match op {
                                    None => Err(FailureV::MissingField("policy"@)),
                                    Some(pv) => {
                                        let t = skip_blank(toks, e);
                                        if t >= toks.len() {
                                            Ok(NessusClientDatav2V { report: rv, policy: pv })
                                        } else {
                                            Err(FailureV::Markup)
                                        }
                                    },
                                },
                            }
                        },
                    }
                } else {
                    Err(FailureV::Markup)
                }
            },
            _ => Err(FailureV::Markup),
        }
    }
}

/// Clamps a token position to keep it nonnegative.
pub open spec fn at_least_tok(lo: int, e: int) -> int {
    if e < lo {
        lo
    } else {
        e
    }
}

/// The images of a token vector.
pub open spec fn tokv(toks: Seq<XmlToken>) -> Seq<TokenV> {
    toks.map_values(|t: XmlToken| t@)
}

/// The images of a field vector.
pub open spec fn field_views(fields: Seq<(String, String)>) -> Seq<(Seq<char>, Seq<char>)> {
    fields.map_values(|p: (String, String)| (p.0@, p.1@))
}

/// The error value that reports the given decode failure.
pub open spec fn error_matches(e: Error, f: FailureV) -> bool {
    match f {
        FailureV::Markup => e matches Error::Markup(_),
        FailureV::MissingField(n) => e matches Error::MissingField(s) && s@ == n,
        FailureV::Number(t) => e matches Error::Number(s) && s@ == t,
    }
}

/// Whether a string holds only markup whitespace.
fn blank(s: &str) -> (r: bool)
    ensures
        r == is_blank(s@),
{
    let n = s.unicode_len();
    let mut i: usize = 0;
    while i < n
        invariant
            n == s@.len(),
            0 <= i <= n,
            forall|j: int| 0 <= j < i ==> is_ws(s@[j]),
        decreases n - i,
    {
        let c = s.get_char(i);
        if !(c == ' ' || c == '\t' || c == '\r' || c == '\n') {
            proof {
                assert(!is_blank(s@)) by {
                    assert(!is_ws(s@[i as int]));
                }
            }
            return false;
        }
        i = i + 1;
    }
    true
}

/// The position right after the current element's matching close, given
/// the walk stands right after its opening tag.
fn skip_past(toks: &Vec<XmlToken>, j: usize) -> (r: Result<usize, Error>)
    requires
        1 <= j <= toks@.len(),
    ensures
        match r {
            Ok(e) => skip_element(tokv(toks@), j as int, 1) == Some(e as int) && j < e
                <= toks@.len(),
            Err(err) => skip_element(tokv(toks@), j as int, 1) is None && (err matches Error::Markup(
                _,
            )),
        },
{
    let n = toks.len();
    let mut cur: usize = j;
    let mut depth: usize = 1;
    loop
        invariant
            n == toks@.len(),
            1 <= j <= cur <= n,
            1 <= depth <= cur - j + 1,
            skip_element(tokv(toks@), j as int, 1) == skip_element(
                tokv(toks@),
                cur as int,
                depth as int,
            ),
        decreases n - cur,
    {
        if cur == n {
            return Err(Error::Markup(cur));
        }
        proof {
            assert(tokv(toks@)[cur as int] == toks@[cur as int]@);
        }
        match &toks[cur] {
            XmlToken::Open { .. } => {
                proof {
                    assert(depth <= cur - j + 1 < n);
                }
                depth = depth + 1;
            },
            XmlToken::Close { .. } => {
                if depth == 1 {
                    return Ok(cur + 1);
                }
                depth = depth - 1;
            },
            _ => {},
        }
        cur = cur + 1;
    }
}

/// The value of the first field with the given name, if any.
fn get_field(fields: &Vec<(String, String)>, name: &str) -> (r: Option<String>)
    ensures
        match r {
            Some(v) => lookup(field_views(fields@), name@) == Some(v@),
            None => lookup(field_views(fields@), name@) is None,
        },
{
    let n = fields.len();
    let mut k: usize = 0;
    proof {
        assert(field_views(fields@).skip(0) =~= field_views(fields@));
    }
    while k < n
        invariant
            n == fields@.len(),
            0 <= k <= n,
            lookup(field_views(fields@), name@) == lookup(
                field_views(fields@).skip(k as int),
                name@,
            ),
        decreases n - k,
    {
        proof {
            assert(field_views(fields@).skip(k as int)[0] == field_views(fields@)[k as int]);
            assert(field_views(fields@)[k as int] == (fields@[k as int].0@, fields@[k as int].1@));
            assert(field_views(fields@).skip(k as int).drop_first() =~= field_views(fields@).skip(
                k + 1,
            ));
        }
        if str_eq(fields[k].0.as_str(), name) {
            return Some(fields[k].1.clone());
        }
        k = k + 1;
    }
    proof {
        assert(field_views(fields@).skip(n as int) =~= Seq::<(Seq<char>, Seq<char>)>::empty());
    }
    None
}

/// A required field: its value, or the missing-field error.
fn get_req(fields: &Vec<(String, String)>, name: &str) -> (r: Result<String, Error>)
    ensures
        match req(field_views(fields@), name@) {
            Ok(v) => r matches Ok(s) && s@ == v,
            Err(f) => r matches Err(e) && error_matches(e, f),
        },
{
    match get_field(fields, name) {
        Some(v) => Ok(v),
        None => Err(Error::MissingField(name.to_owned())),
    }
}

/// A required numeric field: its coerced value, or the error.
fn get_req_num(fields: &Vec<(String, String)>, name: &str) -> (r: Result<u64, Error>)
    ensures
        match req_num(field_views(fields@), name@) {
            Ok(v) => r matches Ok(x) && x == v,
            Err(f) => r matches Err(e) && error_matches(e, f),
        },
{
    match get_field(fields, name) {
        Some(v) => match parse_u64(v.as_str()) {
            Some(x) => Ok(x),
            None => Err(Error::Number(v)),
        },
        None => Err(Error::MissingField(name.to_owned())),
    }
}

/// Attributes and child fields joined into one field list, attributes
/// first.
fn combine_fields(attrs: &Vec<Attr>, fields: &Vec<(String, String)>) -> (r: Vec<(String, String)>)
    ensures
        field_views(r@) == attr_pairs(attrs@.map_values(|a: Attr| a@)) + field_views(fields@),
{
    let mut out: Vec<(String, String)> = Vec::new();
    let na = attrs.len();
    let mut k: usize = 0;
    while k < na
        invariant
            na == attrs@.len(),
            0 <= k <= na,
            out@.len() == k,
            forall|i: int|
                0 <= i < k ==> (#[trigger] out@[i]).0@ == attrs@[i]@.name && out@[i].1@
                    == attrs@[i]@.value,
        decreases na - k,
    {
        out.push((attrs[k].name.clone(), attrs[k].value.clone()));
        k = k + 1;
    }
    let nf = fields.len();
    let mut t: usize = 0;
    while t < nf
        invariant
            na == attrs@.len(),
            nf == fields@.len(),
            0 <= t <= nf,
            out@.len() == na + t,
            forall|i: int|
                0 <= i < na ==> (#[trigger] out@[i]).0@ == attrs@[i]@.name && out@[i].1@
                    == attrs@[i]@.value,
            forall|i: int|
                0 <= i < t ==> (#[trigger] out@[na + i]).0@ == fields@[i].0@ && out@[na + i].1@
                    == fields@[i].1@,
        decreases nf - t,
    {
        out.push((fields[t].0.clone(), fields[t].1.clone()));
        t = t + 1;
    }
    proof {
        let lhs = field_views(out@);
        let rhs = attr_pairs(attrs@.map_values(|a: Attr| a@)) + field_views(fields@);
        assert forall|i: int| 0 <= i < lhs.len() implies lhs[i] == rhs[i] by {
            if i < na {
                assert(out@[i].0@ == attrs@[i]@.name);
            } else {
                assert(out@[na + (i - na)].0@ == fields@[i - na].0@);
            }
        }
        assert(lhs =~= rhs);
    }
    out
}

/// A finding, from its attributes and its child fields.
fn build_item(attrs: &Vec<Attr>, fields: &Vec<(String, String)>) -> (r: Result<
    crate::parser::report::ReportItem,
    Error,
>)
    ensures
        match item_of(attrs@.map_values(|a: Attr| a@), field_views(fields@)) {
            Ok(v) => r matches Ok(it) && it@ == v,
            Err(f) => r matches Err(e) && error_matches(e, f),
        },
{
    let fs = combine_fields(attrs, fields);
    let port = match get_req(&fs, "port") {
        Ok(v) => v,
        Err(e) => {
            return Err(e);
        },
    };
    let svc_name = match get_req(&fs, "svc_name") {
        Ok(v) => v,
        Err(e) => {
            return Err(e);
        },
    };
    let protocol = match get_req(&fs, "protocol") {
        Ok(v) => v,
        Err(e) => {
            return Err(e);
        },
    };
    let severity = match get_req(&fs, "severity") {
        Ok(v) => v,
        Err(e) => {
            return Err(e);
        },
    };
    let plugin_id = match get_req(&fs, "pluginID") {
        Ok(v) => v,
        Err(e) => {
            return Err(e);
        },
    };
    let plugin_name = match get_req(&fs, "pluginName") {
        Ok(v) => v,
        Err(e) => {
            return Err(e);
        },
    };
    let plugin_family = match get_req(&fs, "pluginFamily") {
        Ok(v) => v,
        Err(e) => {
            return Err(e);
        },
    };
    let description = match get_req(&fs, "description") {
        Ok(v) => v,
        Err(e) => {
            return Err(e);
        },
    };
    let fname = match get_req(&fs, "fname") {
        Ok(v) => v,
        Err(e) => {
            return Err(e);
        },
    };
    let plugin_modification_date = match get_req(&fs, "plugin_modification_date") {
        Ok(v) => v,
        Err(e) => {
            return Err(e);
        },
    };
    let plugin_publication_date = match get_req(&fs, "plugin_publication_date") {
        Ok(v) => v,
        Err(e) => {
            return Err(e);
        },
    };
    let plugin_type = match get_req(&fs, "plugin_type") {
        Ok(v) => v,
        Err(e) => {
            return Err(e);
        },
    };
    let risk_factor = match get_req(&fs, "risk_factor") {
        Ok(v) => v,
        Err(e) => {
            return Err(e);
        },
    };
    let script_version = match get_req(&fs, "script_version") {
        Ok(v) => v,
        Err(e) => {
            return Err(e);
        },
    };
    let solution = match get_req(&fs, "solution") {
        Ok(v) => v,
        Err(e) => {
            return Err(e);
        },
    };
    let synopsis = match get_req(&fs, "synopsis") {
        Ok(v) => v,
        Err(e) => {
            return Err(e);
        },
    };
    let plugin_output = get_field(&fs, "plugin_output");
    Ok(
        crate::parser::report::ReportItem {
            port,
            svc_name,
            protocol,
            severity,
            plugin_id,
            plugin_name,
            plugin_family,
            description,
            fname,
            plugin_modification_date,
            plugin_publication_date,
            plugin_type,
            risk_factor,
            script_version,
            solution,
            synopsis,
            plugin_output,
        },
    )
}

/// A server-wide preference, from its child fields.
fn build_server_pref(fields: &Vec<(String, String)>) -> (r: Result<
    crate::parser::policy::ServerPreference,
    Error,
>)
    ensures
        match server_pref_of(field_views(fields@)) {
            Ok(v) => r matches Ok(p) && p@ == v,
            Err(f) => r matches Err(e) && error_matches(e, f),
        },
{
    let name = match get_req(fields, "name") {
        Ok(v) => v,
        Err(e) => {
            return Err(e);
        },
    };
    let value = match get_req(fields, "value") {
        Ok(v) => v,
        Err(e) => {
            return Err(e);
        },
    };
    Ok(crate::parser::policy::ServerPreference { name, value })
}

/// A per-plugin preference, from its child fields.
fn build_plugin_pref(fields: &Vec<(String, String)>) -> (r: Result<
    crate::parser::policy::PluginPreference,
    Error,
>)
    ensures
        match plugin_pref_of(field_views(fields@)) {
            Ok(v) => r matches Ok(p) && p@ == v,
            Err(f) => r matches Err(e) && error_matches(e, f),
        },
{
    let plugin_name = match get_req(fields, "pluginName") {
        Ok(v) => v,
        Err(e) => {
            return Err(e);
        },
    };
    let plugin_id = match get_req_num(fields, "pluginId") {
        Ok(v) => v,
        Err(e) => {
            return Err(e);
        },
    };
    let full_name = match get_req(fields, "fullName") {
        Ok(v) => v,
        Err(e) => {
            return Err(e);
        },
    };
    let preference_name = match get_req(fields, "preferenceName") {
        Ok(v) => v,
        Err(e) => {
            return Err(e);
        },
    };
    let preference_type = match get_req(fields, "preferenceType") {
        Ok(v) => v,
        Err(e) => {
            return Err(e);
        },
    };
    let preference_values = match get_req(fields, "preferenceValues") {
        Ok(v) => v,
        Err(e) => {
            return Err(e);
        },
    };
    let selected_value = match get_req(fields, "selectedValue") {
        Ok(v) => v,
        Err(e) => {
            return Err(e);
        },
    };
    Ok(
        crate::parser::policy::PluginPreference {
            plugin_name,
            plugin_id,
            full_name,
            preference_name,
            preference_type,
            preference_values,
            selected_value,
        },
    )
}

/// A plugin family's enablement entry, from its child fields.
fn build_family_item(fields: &Vec<(String, String)>) -> (r: Result<
    crate::parser::policy::FamilyItem,
    Error,
>)
    ensures
        match family_item_of(field_views(fields@)) {
            Ok(v) => r matches Ok(p) && p@ == v,
            Err(f) => r matches Err(e) && error_matches(e, f),
        },
{
    let family_name = match get_req(fields, "FamilyName") {
        Ok(v) => v,
        Err(e) => {
            return Err(e);
        },
    };
    let status = match get_req(fields, "Status") {
        Ok(v) => v,
        Err(e) => {
            return Err(e);
        },
    };
    Ok(crate::parser::policy::FamilyItem { family_name, status })
}

/// An individually selected plugin, from its child fields.
fn build_plugin_item(fields: &Vec<(String, String)>) -> (r: Result<
    crate::parser::policy::PluginItem,
    Error,
>)
    ensures
        match plugin_item_of(field_views(fields@)) {
            Ok(v) => r matches Ok(p) && p@ == v,
            Err(f) => r matches Err(e) && error_matches(e, f),
        },
{
    let plugin_id = match get_req_num(fields, "PluginId") {
        Ok(v) => v,
        Err(e) => {
            return Err(e);
        },
    };
    let plugin_name = match get_req(fields, "PluginName") {
        Ok(v) => v,
        Err(e) => {
            return Err(e);
        },
    };
    let family = match get_req(fields, "Family") {
        Ok(v) => v,
        Err(e) => {
            return Err(e);
        },
    };
    let status = match get_req(fields, "Status") {
        Ok(v) => v,
        Err(e) => {
            return Err(e);
        },
    };
    Ok(crate::parser::policy::PluginItem { plugin_id, plugin_name, family, status })
}

/// The name/value fields of a container up to its close, as
/// [`fields_until_close`] describes them.
fn collect_fields(toks: &Vec<XmlToken>, j: usize, close: &str) -> (r: Result<
    (Vec<(String, String)>, usize),
    Error,
>)
    requires
        j <= toks@.len(),
    ensures
        match r {
            Ok((fields, e)) => {
                &&& fields_until_close(tokv(toks@), j as int, close@) == Some(
                    (field_views(fields@), e as int),
                )
                &&& j < e <= toks@.len()
            },
            Err(err) => fields_until_close(tokv(toks@), j as int, close@) is None && (err matches Error::Markup(
                _,
            )),
        },
    decreases toks@.len() - j,
{
    let n = toks.len();
    if j >= n {
        return Err(Error::Markup(j));
    }
    proof {
        assert(tokv(toks@)[j as int] == toks@[j as int]@);
    }
    match &toks[j] {
        XmlToken::Close { name } => {
            if str_eq(name.as_str(), close) {
                let fields: Vec<(String, String)> = Vec::new();
                proof {
                    assert(field_views(fields@) =~= Seq::<(Seq<char>, Seq<char>)>::empty());
                }
                Ok((fields, j + 1))
            } else {
                Err(Error::Markup(j))
            }
        },
        XmlToken::Text { value } => {
            if blank(value.as_str()) {
                collect_fields(toks, j + 1, close)
            } else {
                Err(Error::Markup(j))
            }
        },
        XmlToken::Empty { name, .. } => {
            match collect_fields(toks, j + 1, close) {
                Err(e) => Err(e),
                Ok((mut fields, e)) => {
                    let ghost old_views = field_views(fields@);
                    fields.insert(0, (name.clone(), String::new()));
                    proof {
                        assert(field_views(fields@) =~= seq![(name@, Seq::<char>::empty())]
                            + old_views);
                    }
                    Ok((fields, e))
                },
            }
        },
        XmlToken::Open { name, .. } => {
            if j + 1 >= n {
                return Err(Error::Markup(j));
            }
            proof {
                assert(tokv(toks@)[j + 1] == toks@[j + 1]@);
            }
            match &toks[j + 1] {
                XmlToken::Close { name: cn } => {
                    if str_eq(cn.as_str(), name.as_str()) {
                        match collect_fields(toks, j + 2, close) {
                            Err(e) => Err(e),
                            Ok((mut fields, e)) => {
                                let ghost old_views = field_views(fields@);
                                fields.insert(0, (name.clone(), String::new()));
                                proof {
                                    assert(field_views(fields@) =~= seq![
                                        (name@, Seq::<char>::empty()),
                                    ] + old_views);
                                }
                                Ok((fields, e))
                            },
                        }
                    } else {
                        Err(Error::Markup(j + 1))
                    }
                },
                XmlToken::Text { value } => {
                    if j + 2 >= n {
                        return Err(Error::Markup(j));
                    }
                    proof {
                        assert(tokv(toks@)[j + 2] == toks@[j + 2]@);
                    }
                    match &toks[j + 2] {
                        XmlToken::Close { name: cn } => {
                            if str_eq(cn.as_str(), name.as_str()) {
                                match collect_fields(toks, j + 3, close) {
                                    Err(e) => Err(e),
                                    Ok((mut fields, e)) => {
                                        let ghost old_views = field_views(fields@);
                                        fields.insert(0, (name.clone(), value.clone()));
                                        proof {
                                            assert(field_views(fields@) =~= seq![(name@, value@)]
                                                + old_views);
                                        }
                                        Ok((fields, e))
                                    },
                                }
                            } else {
                                Err(Error::Markup(j + 2))
                            }
                        },
                        _ => {
                            match skip_past(toks, j + 1) {
                                Err(e) => Err(e),
                                Ok(e0) => {
                                    proof {
                                        assert(tok_step(tokv(toks@), j + 1, e0 as int)
                                            == e0 as int);
                                    }
                                    collect_fields(toks, e0, close)
                                },
                            }
                        },
                    }
                },
                _ => {
                    match skip_past(toks, j + 1) {
                        Err(e) => Err(e),
                        Ok(e0) => {
                            proof {
                                assert(tok_step(tokv(toks@), j + 1, e0 as int) == e0 as int);
                            }
                            collect_fields(toks, e0, close)
                        },
                    }
                },
            }
        },
    }
}

/// The text-only content of the element just opened, as
/// [`simple_content`] describes it.
fn read_simple(toks: &Vec<XmlToken>, j: usize, name: &str) -> (r: Option<(String, usize)>)
    requires
        j <= toks@.len(),
    ensures
        match r {
            Some((v, e)) => {
                &&& simple_content(tokv(toks@), j as int, name@) == Some((v@, e as int))
                &&& j < e <= toks@.len()
            },
            None => simple_content(tokv(toks@), j as int, name@) is None,
        },
{
    let n = toks.len();
    if j >= n {
        return None;
    }
    proof {
        assert(tokv(toks@)[j as int] == toks@[j as int]@);
    }
    match &toks[j] {
        XmlToken::Close { name: cn } => {
            if str_eq(cn.as_str(), name) {
                Some((String::new(), j + 1))
            } else {
                None
            }
        },
        XmlToken::Text { value } => {
            if j + 1 >= n {
                return None;
            }
            proof {
                assert(tokv(toks@)[j + 1] == toks@[j + 1]@);
            }
            match &toks[j + 1] {
                XmlToken::Close { name: cn } => {
                    if str_eq(cn.as_str(), name) {
                        Some((value.clone(), j + 2))
                    } else {
                        None
                    }
                },
                _ => None,
            }
        },
        _ => None,
    }
}

/// The attributes of a tag, as a field list.
fn attr_fields(attrs: &Vec<Attr>) -> (r: Vec<(String, String)>)
    ensures
        field_views(r@) == attr_pairs(attrs@.map_values(|a: Attr| a@)),
{
    let empty: Vec<(String, String)> = Vec::new();
    let r = combine_fields(attrs, &empty);
    proof {
        assert(field_views(empty@) =~= Seq::<(Seq<char>, Seq<char>)>::empty());
        assert(attr_pairs(attrs@.map_values(|a: Attr| a@)) + Seq::<(
            Seq<char>,
            Seq<char>,
        )>::empty() =~= attr_pairs(attrs@.map_values(|a: Attr| a@)));
    }
    r
}

/// The tags of a host-properties block, as [`tags_of`] describes them.
fn walk_tags(toks: &Vec<XmlToken>, j: usize) -> (r: Result<
    (Vec<crate::parser::report::Tag>, usize),
    Error,
>)
    requires
        j <= toks@.len(),
    ensures
        match tags_of(tokv(toks@), j as int) {
            Ok(p) => r matches Ok((tags, e)) && (tags@.map_values(
                |t: crate::parser::report::Tag| t@,
            ) == p.0 && e as int == p.1 && j < e <= toks@.len()),
            Err(f) => r matches Err(err) && error_matches(err, f),
        },
    decreases toks@.len() - j,
{
    let n = toks.len();
    if j >= n {
        return Err(Error::Markup(j));
    }
    proof {
        assert(tokv(toks@)[j as int] == toks@[j as int]@);
    }
    match &toks[j] {
        XmlToken::Close { name } => {
            if str_eq(name.as_str(), "HostProperties") {
                let tags: Vec<crate::parser::report::Tag> = Vec::new();
                proof {
                    assert(tags@.map_values(|t: crate::parser::report::Tag| t@) =~= Seq::<
                        TagV,
                    >::empty());
                }
                Ok((tags, j + 1))
            } else {
                Err(Error::Markup(j))
            }
        },
        XmlToken::Text { value } => {
            if blank(value.as_str()) {
                walk_tags(toks, j + 1)
            } else {
                Err(Error::Markup(j))
            }
        },
        XmlToken::Empty { name, attrs } => {
            if str_eq(name.as_str(), "tag") {
                let afs = attr_fields(attrs);
                match get_req(&afs, "name") {
                    Err(e) => Err(e),
                    Ok(nm) => match walk_tags(toks, j + 1) {
                        Err(e) => Err(e),
                        Ok((mut tags, e)) => {
                            let ghost old_views = tags@.map_values(
                                |t: crate::parser::report::Tag| t@,
                            );
                            tags.insert(
                                0,
                                crate::parser::report::Tag { name: nm, value: String::new() },
                            );
                            proof {
                                assert(tags@.map_values(|t: crate::parser::report::Tag| t@)
                                    =~= seq![tags@[0]@] + old_views);
                            }
                            Ok((tags, e))
                        },
                    },
                }
            } else {
                walk_tags(toks, j + 1)
            }
        },
        XmlToken::Open { name, attrs } => {
            if str_eq(name.as_str(), "tag") {
                match read_simple(toks, j + 1, "tag") {
                    None => Err(Error::Markup(j)),
                    Some((v, e)) => {
                        proof {
                            assert(tok_step(tokv(toks@), j + 1, e as int) == e as int);
                        }
                        let afs = attr_fields(attrs);
                        match get_req(&afs, "name") {
                            Err(e2) => Err(e2),
                            Ok(nm) => match walk_tags(toks, e) {
                                Err(e2) => Err(e2),
                                Ok((mut tags, end)) => {
                                    let ghost old_views = tags@.map_values(
                                        |t: crate::parser::report::Tag| t@,
                                    );
                                    tags.insert(
                                        0,
                                        crate::parser::report::Tag { name: nm, value: v },
                                    );
                                    proof {
                                        assert(tags@.map_values(
                                            |t: crate::parser::report::Tag| t@,
                                        ) =~= seq![tags@[0]@] + old_views);
                                    }
                                    Ok((tags, end))
                                },
                            },
                        }
                    },
                }
            } else {
                match skip_past(toks, j + 1) {
                    Err(e) => Err(e),
                    Ok(e0) => {
                        proof {
                            assert(tok_step(tokv(toks@), j + 1, e0 as int) == e0 as int);
                        }
                        walk_tags(toks, e0)
                    },
                }
            }
        },
    }
}

/// The children of a host element, as [`host_children`] describes them.
#[verifier::rlimit(100)]
fn walk_host(toks: &Vec<XmlToken>, j: usize) -> (r: Result<
    (
        Vec<(String, String)>,
        Option<crate::parser::report::HostProperties>,
        Vec<crate::parser::report::ReportItem>,
        usize,
    ),
    Error,
>)
    requires
        j <= toks@.len(),
    ensures
        match host_children(tokv(toks@), j as int) {
            Ok(p) => r matches Ok((fs, hp, its, e)) && ({
                &&& field_views(fs@) == p.0
                &&& (match hp {
                    Some(h) => p.1 matches Some(hv) && h@ == hv,
                    None => p.1 is None,
                })
                &&& its@.map_values(|it: crate::parser::report::ReportItem| it@) == p.2
                &&& e as int == p.3
                &&& j < e <= toks@.len()
            }),
            Err(f) => r matches Err(err) && error_matches(err, f),
        },
    decreases toks@.len() - j,
{
    let n = toks.len();
    if j >= n {
        return Err(Error::Markup(j));
    }
    proof {
        assert(tokv(toks@)[j as int] == toks@[j as int]@);
    }
    match &toks[j] {
        XmlToken::Close { name } => {
            if str_eq(name.as_str(), "ReportHost") {
                let fs: Vec<(String, String)> = Vec::new();
                let its: Vec<crate::parser::report::ReportItem> = Vec::new();
                proof {
                    assert(field_views(fs@) =~= Seq::<(Seq<char>, Seq<char>)>::empty());
                    assert(its@.map_values(|it: crate::parser::report::ReportItem| it@) =~= Seq::<
                        ReportItemV,
                    >::empty());
                }
                Ok((fs, None, its, j + 1))
            } else {
                Err(Error::Markup(j))
            }
        },
        XmlToken::Text { value } => {
            if blank(value.as_str()) {
                walk_host(toks, j + 1)
            } else {
                Err(Error::Markup(j))
            }
        },
        XmlToken::Empty { name, attrs } => {
            if str_eq(name.as_str(), "HostProperties") {
                match walk_host(toks, j + 1) {
                    Err(e) => Err(e),
                    Ok((fs, hp, its, e)) => {
                        if hp.is_some() {
                            Err(Error::Markup(j))
                        } else {
                            let props = crate::parser::report::HostProperties {
                                tags: Vec::new(),
                            };
                            proof {
                                assert(props@.tags =~= Seq::<TagV>::empty());
                            }
                            Ok((fs, Some(props), its, e))
                        }
                    },
                }
            } else if str_eq(name.as_str(), "ReportItem") {
                let empty: Vec<(String, String)> = Vec::new();
                proof {
                    assert(field_views(empty@) =~= Seq::<(Seq<char>, Seq<char>)>::empty());
                }
                match build_item(attrs, &empty) {
                    Err(e) => Err(e),
                    Ok(it) => match walk_host(toks, j + 1) {
                        Err(e) => Err(e),
                        Ok((fs, hp, mut its, e)) => {
                            let ghost old_views = its@.map_values(
                                |x: crate::parser::report::ReportItem| x@,
                            );
                            its.insert(0, it);
                            proof {
                                assert(its@.map_values(|x: crate::parser::report::ReportItem| x@)
                                    =~= seq![its@[0]@] + old_views);
                            }
                            Ok((fs, hp, its, e))
                        },
                    },
                }
            } else {
                match walk_host(toks, j + 1) {
                    Err(e) => Err(e),
                    Ok((mut fs, hp, its, e)) => {
                        let ghost old_views = field_views(fs@);
                        fs.insert(0, (name.clone(), String::new()));
                        proof {
                            assert(field_views(fs@) =~= seq![(name@, Seq::<char>::empty())]
                                + old_views);
                        }
                        Ok((fs, hp, its, e))
                    },
                }
            }
        },
        XmlToken::Open { name, attrs } => {
            if str_eq(name.as_str(), "HostProperties") {
                match walk_tags(toks, j + 1) {
                    Err(e) => Err(e),
                    Ok((tags, e)) => {
                        proof {
                            assert(tok_step(tokv(toks@), j + 1, e as int) == e as int);
                        }
                        match walk_host(toks, e) {
                            Err(e2) => Err(e2),
                            Ok((fs, hp, its, end)) => {
                                if hp.is_some() {
                                    Err(Error::Markup(j))
                                } else {
                                    let props = crate::parser::report::HostProperties { tags };
                                    proof {
                                        assert(props@.tags =~= tags_of(
                                            tokv(toks@),
                                            j + 1,
                                        )->Ok_0.0);
                                    }
                                    Ok((fs, Some(props), its, end))
                                }
                            },
                        }
                    },
                }
            } else if str_eq(name.as_str(), "ReportItem") {
                match collect_fields(toks, j + 1, "ReportItem") {
                    Err(e) => Err(e),
                    Ok((ifs, e)) => {
                        proof {
                            assert(tok_step(tokv(toks@), j + 1, e as int) == e as int);
                        }
                        match build_item(attrs, &ifs) {
                            Err(e2) => Err(e2),
                            Ok(it) => match walk_host(toks, e) {
                                Err(e2) => Err(e2),
                                Ok((fs, hp, mut its, end)) => {
                                    let ghost old_views = its@.map_values(
                                        |x: crate::parser::report::ReportItem| x@,
                                    );
                                    its.insert(0, it);
                                    proof {
                                        assert(its@.map_values(
                                            |x: crate::parser::report::ReportItem| x@,
                                        ) =~= seq![its@[0]@] + old_views);
                                    }
                                    Ok((fs, hp, its, end))
                                },
                            },
                        }
                    },
                }
            } else {
                match read_simple(toks, j + 1, name.as_str()) {
                    Some((v, e)) => {
                        proof {
                            assert(tok_step(tokv(toks@), j + 1, e as int) == e as int);
                        }
                        match walk_host(toks, e) {
                            Err(e2) => Err(e2),
                            Ok((mut fs, hp, its, end)) => {
                                let ghost old_views = field_views(fs@);
                                fs.insert(0, (name.clone(), v));
                                proof {
                                    assert(field_views(fs@) =~= seq![(name@, fs@[0].1@)]
                                        + old_views);
                                }
                                Ok((fs, hp, its, end))
                            },
                        }
                    },
                    None => {
                        match skip_past(toks, j + 1) {
                            Err(e) => Err(e),
                            Ok(e0) => {
                                proof {
                                    assert(tok_step(tokv(toks@), j + 1, e0 as int) == e0 as int);
                                }
                                walk_host(toks, e0)
                            },
                        }
                    },
                }
            }
        },
    }
}

/// A host, as [`host_of`] builds it.
fn build_host(
    attrs: &Vec<Attr>,
    fields: &Vec<(String, String)>,
    hp: Option<crate::parser::report::HostProperties>,
    items: Vec<crate::parser::report::ReportItem>,
) -> (r: Result<crate::parser::report::ReportHost, Error>)
    ensures
        match host_of(
            attrs@.map_values(|a: Attr| a@),
            field_views(fields@),
            match hp {
                Some(ref h) => Some(h@),
                None => None,
            },
            items@.map_values(|it: crate::parser::report::ReportItem| it@),
        ) {
            Ok(v) => r matches Ok(h) && h@ == v,
            Err(f) => r matches Err(e) && error_matches(e, f),
        },
{
    let all = combine_fields(attrs, fields);
    let name = match get_req(&all, "name") {
        Ok(v) => v,
        Err(e) => {
            return Err(e);
        },
    };
    match hp {
        None => Err(Error::MissingField("host_properties".to_owned())),
        Some(props) => Ok(
            crate::parser::report::ReportHost {
                name,
                host_properties: props,
                report_items: items,
            },
        ),
    }
}

/// The children of the report element, as [`report_children`] describes
/// them.
#[verifier::rlimit(100)]
fn walk_report(toks: &Vec<XmlToken>, j: usize) -> (r: Result<
    (Vec<(String, String)>, Vec<crate::parser::report::ReportHost>, usize),
    Error,
>)
    requires
        j <= toks@.len(),
    ensures
        match report_children(tokv(toks@), j as int) {
            Ok(p) => r matches Ok((fs, hs, e)) && ({
                &&& field_views(fs@) == p.0
                &&& hs@.map_values(|h: crate::parser::report::ReportHost| h@) == p.1
                &&& e as int == p.2
                &&& j < e <= toks@.len()
            }),
            Err(f) => r matches Err(err) && error_matches(err, f),
        },
    decreases toks@.len() - j,
{
    let n = toks.len();
    if j >= n {
        return Err(Error::Markup(j));
    }
    proof {
        assert(tokv(toks@)[j as int] == toks@[j as int]@);
    }
    match &toks[j] {
        XmlToken::Close { name } => {
            if str_eq(name.as_str(), "Report") {
                let fs: Vec<(String, String)> = Vec::new();
                let hs: Vec<crate::parser::report::ReportHost> = Vec::new();
                proof {
                    assert(field_views(fs@) =~= Seq::<(Seq<char>, Seq<char>)>::empty());
                    assert(hs@.map_values(|h: crate::parser::report::ReportHost| h@) =~= Seq::<
                        ReportHostV,
                    >::empty());
                }
                Ok((fs, hs, j + 1))
            } else {
                Err(Error::Markup(j))
            }
        },
        XmlToken::Text { value } => {
            if blank(value.as_str()) {
                walk_report(toks, j + 1)
            } else {
                Err(Error::Markup(j))
            }
        },
        XmlToken::Empty { name, attrs } => {
            if str_eq(name.as_str(), "ReportHost") {
                let empty: Vec<(String, String)> = Vec::new();
                proof {
                    assert(field_views(empty@) =~= Seq::<(Seq<char>, Seq<char>)>::empty());
                }
                match build_host(attrs, &empty, None, Vec::new()) {
                    Err(e) => Err(e),
                    Ok(h) => match walk_report(toks, j + 1) {
                        Err(e) => Err(e),
                        Ok((fs, mut hs, e)) => {
                            let ghost old_views = hs@.map_values(
                                |x: crate::parser::report::ReportHost| x@,
                            );
                            hs.insert(0, h);
                            proof {
                                assert(hs@.map_values(|x: crate::parser::report::ReportHost| x@)
                                    =~= seq![hs@[0]@] + old_views);
                            }
                            Ok((fs, hs, e))
                        },
                    },
                }
            } else {
                match walk_report(toks, j + 1) {
                    Err(e) => Err(e),
                    Ok((mut fs, hs, e)) => {
                        let ghost old_views = field_views(fs@);
                        fs.insert(0, (name.clone(), String::new()));
                        proof {
                            assert(field_views(fs@) =~= seq![(name@, Seq::<char>::empty())]
                                + old_views);
                        }
                        Ok((fs, hs, e))
                    },
                }
            }
        },
        XmlToken::Open { name, attrs } => {
            if str_eq(name.as_str(), "ReportHost") {
                match walk_host(toks, j + 1) {
                    Err(e) => Err(e),
                    Ok((hfs, hp, its, e)) => {
                        proof {
                            assert(tok_step(tokv(toks@), j + 1, e as int) == e as int);
                        }
                        match build_host(attrs, &hfs, hp, its) {
                            Err(e2) => Err(e2),
                            Ok(h) => match walk_report(toks, e) {
                                Err(e2) => Err(e2),
                                Ok((fs, mut hs, end)) => {
                                    let ghost old_views = hs@.map_values(
                                        |x: crate::parser::report::ReportHost| x@,
                                    );
                                    hs.insert(0, h);
                                    proof {
                                        assert(hs@.map_values(
                                            |x: crate::parser::report::ReportHost| x@,
                                        ) =~= seq![hs@[0]@] + old_views);
                                    }
                                    Ok((fs, hs, end))
                                },
                            },
                        }
                    },
                }
            } else {
                match read_simple(toks, j + 1, name.as_str()) {
                    Some((v, e)) => {
                        proof {
                            assert(tok_step(tokv(toks@), j + 1, e as int) == e as int);
                        }
                        match walk_report(toks, e) {
                            Err(e2) => Err(e2),
                            Ok((mut fs, hs, end)) => {
                                let ghost old_views = field_views(fs@);
                                fs.insert(0, (name.clone(), v));
                                proof {
                                    assert(field_views(fs@) =~= seq![(name@, fs@[0].1@)]
                                        + old_views);
                                }
                                Ok((fs, hs, end))
                            },
                        }
                    },
                    None => {
                        match skip_past(toks, j + 1) {
                            Err(e) => Err(e),
                            Ok(e0) => {
                                proof {
                                    assert(tok_step(tokv(toks@), j + 1, e0 as int) == e0 as int);
                                }
                                walk_report(toks, e0)
                            },
                        }
                    },
                }
            }
        },
    }
}

/// The entries of the server-preference list, as [`server_prefs_list`]
/// describes them.
fn walk_server_prefs(toks: &Vec<XmlToken>, j: usize) -> (r: Result<
    (Vec<crate::parser::policy::ServerPreference>, usize),
    Error,
>)
    requires
        j <= toks@.len(),
    ensures
        match server_prefs_list(tokv(toks@), j as int) {
            Ok(p) => r matches Ok((ps, e)) && (ps@.map_values(
                |x: crate::parser::policy::ServerPreference| x@,
            ) == p.0 && e as int == p.1 && j < e <= toks@.len()),
            Err(f) => r matches Err(err) && error_matches(err, f),
        },
    decreases toks@.len() - j,
{
    let n = toks.len();
    if j >= n {
        return Err(Error::Markup(j));
    }
    proof {
        assert(tokv(toks@)[j as int] == toks@[j as int]@);
    }
    match &toks[j] {
        XmlToken::Close { name } => {
            if str_eq(name.as_str(), "ServerPreferences") {
                let ps: Vec<crate::parser::policy::ServerPreference> = Vec::new();
                proof {
                    assert(ps@.map_values(|x: crate::parser::policy::ServerPreference| x@)
                        =~= Seq::<ServerPreferenceV>::empty());
                }
                Ok((ps, j + 1))
            } else {
                Err(Error::Markup(j))
            }
        },
        XmlToken::Text { value } => {
            if blank(value.as_str()) {
                walk_server_prefs(toks, j + 1)
            } else {
                Err(Error::Markup(j))
            }
        },
        XmlToken::Empty { name, .. } => {
            if str_eq(name.as_str(), "preference") {
                let empty: Vec<(String, String)> = Vec::new();
                proof {
                    assert(field_views(empty@) =~= Seq::<(Seq<char>, Seq<char>)>::empty());
                }
                match build_server_pref(&empty) {
                    Err(e) => Err(e),
                    Ok(p) => match walk_server_prefs(toks, j + 1) {
                        Err(e) => Err(e),
                        Ok((mut ps, e)) => {
                            let ghost old_views = ps@.map_values(
                                |x: crate::parser::policy::ServerPreference| x@,
                            );
                            ps.insert(0, p);
                            proof {
                                assert(ps@.map_values(
                                    |x: crate::parser::policy::ServerPreference| x@,
                                ) =~= seq![ps@[0]@] + old_views);
                            }
                            Ok((ps, e))
                        },
                    },
                }
            } else {
                walk_server_prefs(toks, j + 1)
            }
        },
        XmlToken::Open { name, .. } => {
            if str_eq(name.as_str(), "preference") {
                match collect_fields(toks, j + 1, "preference") {
                    Err(e) => Err(e),
                    Ok((fs, e)) => {
                        proof {
                            assert(tok_step(tokv(toks@), j + 1, e as int) == e as int);
                        }
                        match build_server_pref(&fs) {
                            Err(e2) => Err(e2),
                            Ok(p) => match walk_server_prefs(toks, e) {
                                Err(e2) => Err(e2),
                                Ok((mut ps, end)) => {
                                    let ghost old_views = ps@.map_values(
                                        |x: crate::parser::policy::ServerPreference| x@,
                                    );
                                    ps.insert(0, p);
                                    proof {
                                        assert(ps@.map_values(
                                            |x: crate::parser::policy::ServerPreference| x@,
                                        ) =~= seq![ps@[0]@] + old_views);
                                    }
                                    Ok((ps, end))
                                },
                            },
                        }
                    },
                }
            } else {
                match skip_past(toks, j + 1) {
                    Err(e) => Err(e),
                    Ok(e0) => {
                        proof {
                            assert(tok_step(tokv(toks@), j + 1, e0 as int) == e0 as int);
                        }
                        walk_server_prefs(toks, e0)
                    },
                }
            }
        },
    }
}

/// The entries of the plugin-preference list, as [`plugin_prefs_list`]
/// describes them.
fn walk_plugin_prefs(toks: &Vec<XmlToken>, j: usize) -> (r: Result<
    (Vec<crate::parser::policy::PluginPreference>, usize),
    Error,
>)
    requires
        j <= toks@.len(),
    ensures
        match plugin_prefs_list(tokv(toks@), j as int) {
            Ok(p) => r matches Ok((ps, e)) && (ps@.map_values(
                |x: crate::parser::policy::PluginPreference| x@,
            ) == p.0 && e as int == p.1 && j < e <= toks@.len()),
            Err(f) => r matches Err(err) && error_matches(err, f),
        },
    decreases toks@.len() - j,
{
    let n = toks.len();
    if j >= n {
        return Err(Error::Markup(j));
    }
    proof {
        assert(tokv(toks@)[j as int] == toks@[j as int]@);
    }
    match &toks[j] {
        XmlToken::Close { name } => {
            if str_eq(name.as_str(), "PluginsPreferences") {
                let ps: Vec<crate::parser::policy::PluginPreference> = Vec::new();
                proof {
                    assert(ps@.map_values(|x: crate::parser::policy::PluginPreference| x@)
                        =~= Seq::<PluginPreferenceV>::empty());
                }
                Ok((ps, j + 1))
            } else {
                Err(Error::Markup(j))
            }
        },
        XmlToken::Text { value } => {
            if blank(value.as_str()) {
                walk_plugin_prefs(toks, j + 1)
            } else {
                Err(Error::Markup(j))
            }
        },
        XmlToken::Empty { name, .. } => {
            if str_eq(name.as_str(), "item") {
                let empty: Vec<(String, String)> = Vec::new();
                proof {
                    assert(field_views(empty@) =~= Seq::<(Seq<char>, Seq<char>)>::empty());
                }
                match build_plugin_pref(&empty) {
                    Err(e) => Err(e),
                    Ok(p) => match walk_plugin_prefs(toks, j + 1) {
                        Err(e) => Err(e),
                        Ok((mut ps, e)) => {
                            let ghost old_views = ps@.map_values(
                                |x: crate::parser::policy::PluginPreference| x@,
                            );
                            ps.insert(0, p);
                            proof {
                                assert(ps@.map_values(
                                    |x: crate::parser::policy::PluginPreference| x@,
                                ) =~= seq![ps@[0]@] + old_views);
                            }
                            Ok((ps, e))
                        },
                    },
                }
            } else {
                walk_plugin_prefs(toks, j + 1)
            }
        },
        XmlToken::Open { name, .. } => {
            if str_eq(name.as_str(), "item") {
                match collect_fields(toks, j + 1, "item") {
                    Err(e) => Err(e),
                    Ok((fs, e)) => {
                        proof {
                            assert(tok_step(tokv(toks@), j + 1, e as int) == e as int);
                        }
                        match build_plugin_pref(&fs) {
                            Err(e2) => Err(e2),
                            Ok(p) => match walk_plugin_prefs(toks, e) {
                                Err(e2) => Err(e2),
                                Ok((mut ps, end)) => {
                                    let ghost old_views = ps@.map_values(
                                        |x: crate::parser::policy::PluginPreference| x@,
                                    );
                                    ps.insert(0, p);
                                    proof {
                                        assert(ps@.map_values(
                                            |x: crate::parser::policy::PluginPreference| x@,
                                        ) =~= seq![ps@[0]@] + old_views);
                                    }
                                    Ok((ps, end))
                                },
                            },
                        }
                    },
                }
            } else {
                match skip_past(toks, j + 1) {
                    Err(e) => Err(e),
                    Ok(e0) => {
                        proof {
                            assert(tok_step(tokv(toks@), j + 1, e0 as int) == e0 as int);
                        }
                        walk_plugin_prefs(toks, e0)
                    },
                }
            }
        },
    }
}

/// The entries of the family-selection list, as [`family_list`]
/// describes them.
fn walk_family(toks: &Vec<XmlToken>, j: usize) -> (r: Result<
    (Vec<crate::parser::policy::FamilyItem>, usize),
    Error,
>)
    requires
        j <= toks@.len(),
    ensures
        match family_list(tokv(toks@), j as int) {
            Ok(p) => r matches Ok((ps, e)) && (ps@.map_values(
                |x: crate::parser::policy::FamilyItem| x@,
            ) == p.0 && e as int == p.1 && j < e <= toks@.len()),
            Err(f) => r matches Err(err) && error_matches(err, f),
        },
    decreases toks@.len() - j,
{
    let n = toks.len();
    if j >= n {
        return Err(Error::Markup(j));
    }
    proof {
        assert(tokv(toks@)[j as int] == toks@[j as int]@);
    }
    match &toks[j] {
        XmlToken::Close { name } => {
            if str_eq(name.as_str(), "FamilySelection") {
                let ps: Vec<crate::parser::policy::FamilyItem> = Vec::new();
                proof {
                    assert(ps@.map_values(|x: crate::parser::policy::FamilyItem| x@) =~= Seq::<
                        FamilyItemV,
                    >::empty());
                }
                Ok((ps, j + 1))
            } else {
                Err(Error::Markup(j))
            }
        },
        XmlToken::Text { value } => {
            if blank(value.as_str()) {
                walk_family(toks, j + 1)
            } else {
                Err(Error::Markup(j))
            }
        },
        XmlToken::Empty { name, .. } => {
            if str_eq(name.as_str(), "FamilyItem") {
                let empty: Vec<(String, String)> = Vec::new();
                proof {
                    assert(field_views(empty@) =~= Seq::<(Seq<char>, Seq<char>)>::empty());
                }
                match build_family_item(&empty) {
                    Err(e) => Err(e),
                    Ok(p) => match walk_family(toks, j + 1) {
                        Err(e) => Err(e),
                        Ok((mut ps, e)) => {
                            let ghost old_views = ps@.map_values(
                                |x: crate::parser::policy::FamilyItem| x@,
                            );
                            ps.insert(0, p);
                            proof {
                                assert(ps@.map_values(|x: crate::parser::policy::FamilyItem| x@)
                                    =~= seq![ps@[0]@] + old_views);
                            }
                            Ok((ps, e))
                        },
                    },
                }
            } else {
                walk_family(toks, j + 1)
            }
        },
        XmlToken::Open { name, .. } => {
            if str_eq(name.as_str(), "FamilyItem") {
                match collect_fields(toks, j + 1, "FamilyItem") {
                    Err(e) => Err(e),
                    Ok((fs, e)) => {
                        proof {
                            assert(tok_step(tokv(toks@), j + 1, e as int) == e as int);
                        }
                        match build_family_item(&fs) {
                            Err(e2) => Err(e2),
                            Ok(p) => match walk_family(toks, e) {
                                Err(e2) => Err(e2),
                                Ok((mut ps, end)) => {
                                    let ghost old_views = ps@.map_values(
                                        |x: crate::parser::policy::FamilyItem| x@,
                                    );
                                    ps.insert(0, p);
                                    proof {
                                        assert(ps@.map_values(
                                            |x: crate::parser::policy::FamilyItem| x@,
                                        ) =~= seq![ps@[0]@] + old_views);
                                    }
                                    Ok((ps, end))
                                },
                            },
                        }
                    },
                }
            } else {
                match skip_past(toks, j + 1) {
                    Err(e) => Err(e),
                    Ok(e0) => {
                        proof {
                            assert(tok_step(tokv(toks@), j + 1, e0 as int) == e0 as int);
                        }
                        walk_family(toks, e0)
                    },
                }
            }
        },
    }
}

/// The entries of the individual plugin selection, as
/// [`plugin_sel_list`] describes them.
fn walk_plugin_sel(toks: &Vec<XmlToken>, j: usize) -> (r: Result<
    (Vec<crate::parser::policy::PluginItem>, usize),
    Error,
>)
    requires
        j <= toks@.len(),
    ensures
        match plugin_sel_list(tokv(toks@), j as int) {
            Ok(p) => r matches Ok((ps, e)) && (ps@.map_values(
                |x: crate::parser::policy::PluginItem| x@,
            ) == p.0 && e as int == p.1 && j < e <= toks@.len()),
            Err(f) => r matches Err(err) && error_matches(err, f),
        },
    decreases toks@.len() - j,
{
    let n = toks.len();
    if j >= n {
        return Err(Error::Markup(j));
    }
    proof {
        assert(tokv(toks@)[j as int] == toks@[j as int]@);
    }
    match &toks[j] {
        XmlToken::Close { name } => {
            if str_eq(name.as_str(), "IndividualPluginSelection") {
                let ps: Vec<crate::parser::policy::PluginItem> = Vec::new();
                proof {
                    assert(ps@.map_values(|x: crate::parser::policy::PluginItem| x@) =~= Seq::<
                        PluginItemV,
                    >::empty());
                }
                Ok((ps, j + 1))
            } else {
                Err(Error::Markup(j))
            }
        },
        XmlToken::Text { value } => {
            if blank(value.as_str()) {
                walk_plugin_sel(toks, j + 1)
            } else {
                Err(Error::Markup(j))
            }
        },
        XmlToken::Empty { name, .. } => {
            if str_eq(name.as_str(), "PluginItem") {
                let empty: Vec<(String, String)> = Vec::new();
                proof {
                    assert(field_views(empty@) =~= Seq::<(Seq<char>, Seq<char>)>::empty());
                }
                match build_plugin_item(&empty) {
                    Err(e) => Err(e),
                    Ok(p) => match walk_plugin_sel(toks, j + 1) {
                        Err(e) => Err(e),
                        Ok((mut ps, e)) => {
                            let ghost old_views = ps@.map_values(
                                |x: crate::parser::policy::PluginItem| x@,
                            );
                            ps.insert(0, p);
                            proof {
                                assert(ps@.map_values(|x: crate::parser::policy::PluginItem| x@)
                                    =~= seq![ps@[0]@] + old_views);
                            }
                            Ok((ps, e))
                        },
                    },
                }
            } else {
                walk_plugin_sel(toks, j + 1)
            }
        },
        XmlToken::Open { name, .. } => {
            if str_eq(name.as_str(), "PluginItem") {
                match collect_fields(toks, j + 1, "PluginItem") {
                    Err(e) => Err(e),
                    Ok((fs, e)) => {
                        proof {
                            assert(tok_step(tokv(toks@), j + 1, e as int) == e as int);
                        }
                        match build_plugin_item(&fs) {
                            Err(e2) => Err(e2),
                            Ok(p) => match walk_plugin_sel(toks, e) {
                                Err(e2) => Err(e2),
                                Ok((mut ps, end)) => {
                                    let ghost old_views = ps@.map_values(
                                        |x: crate::parser::policy::PluginItem| x@,
                                    );
                                    ps.insert(0, p);
                                    proof {
                                        assert(ps@.map_values(
                                            |x: crate::parser::policy::PluginItem| x@,
                                        ) =~= seq![ps@[0]@] + old_views);
                                    }
                                    Ok((ps, end))
                                },
                            },
                        }
                    },
                }
            } else {
                match skip_past(toks, j + 1) {
                    Err(e) => Err(e),
                    Ok(e0) => {
                        proof {
                            assert(tok_step(tokv(toks@), j + 1, e0 as int) == e0 as int);
                        }
                        walk_plugin_sel(toks, e0)
                    },
                }
            }
        },
    }
}

/// The children of the preferences element, as [`prefs_children`]
/// describes them.
#[verifier::rlimit(100)]
fn walk_prefs(toks: &Vec<XmlToken>, j: usize) -> (r: Result<
    (
        Option<Vec<crate::parser::policy::ServerPreference>>,
        Option<Vec<crate::parser::policy::PluginPreference>>,
        usize,
    ),
    Error,
>)
    requires
        j <= toks@.len(),
    ensures
        match prefs_children(tokv(toks@), j as int) {
            Ok(p) => r matches Ok((sp, pp, e)) && ({
                &&& (match sp {
                    Some(v) => p.0 matches Some(sv) && v@.map_values(
                        |x: crate::parser::policy::ServerPreference| x@,
                    ) == sv,
                    None => p.0 is None,
                })
                &&& (match pp {
                    Some(v) => p.1 matches Some(pv) && v@.map_values(
                        |x: crate::parser::policy::PluginPreference| x@,
                    ) == pv,
                    None => p.1 is None,
                })
                &&& e as int == p.2
                &&& j < e <= toks@.len()
            }),
            Err(f) => r matches Err(err) && error_matches(err, f),
        },
    decreases toks@.len() - j,
{
    let n = toks.len();
    if j >= n {
        return Err(Error::Markup(j));
    }
    proof {
        assert(tokv(toks@)[j as int] == toks@[j as int]@);
    }
    match &toks[j] {
        XmlToken::Close { name } => {
            if str_eq(name.as_str(), "Preferences") {
                Ok((None, None, j + 1))
            } else {
                Err(Error::Markup(j))
            }
        },
        XmlToken::Text { value } => {
            if blank(value.as_str()) {
                walk_prefs(toks, j + 1)
            } else {
                Err(Error::Markup(j))
            }
        },
        XmlToken::Empty { name, .. } => {
            if str_eq(name.as_str(), "ServerPreferences") {
                match walk_prefs(toks, j + 1) {
                    Err(e) => Err(e),
                    Ok((sp, pp, e)) => {
                        if sp.is_some() {
                            Err(Error::Markup(j))
                        } else {
                            let ps: Vec<crate::parser::policy::ServerPreference> = Vec::new();
                            proof {
                                assert(ps@.map_values(
                                    |x: crate::parser::policy::ServerPreference| x@,
                                ) =~= Seq::<ServerPreferenceV>::empty());
                            }
                            Ok((Some(ps), pp, e))
                        }
                    },
                }
            } else if str_eq(name.as_str(), "PluginsPreferences") {
                match walk_prefs(toks, j + 1) {
                    Err(e) => Err(e),
                    Ok((sp, pp, e)) => {
                        if pp.is_some() {
                            Err(Error::Markup(j))
                        } else {
                            let ps: Vec<crate::parser::policy::PluginPreference> = Vec::new();
                            proof {
                                assert(ps@.map_values(
                                    |x: crate::parser::policy::PluginPreference| x@,
                                ) =~= Seq::<PluginPreferenceV>::empty());
                            }
                            Ok((sp, Some(ps), e))
                        }
                    },
                }
            } else {
                walk_prefs(toks, j + 1)
            }
        },
        XmlToken::Open { name, .. } => {
            if str_eq(name.as_str(), "ServerPreferences") {
                match walk_server_prefs(toks, j + 1) {
                    Err(e) => Err(e),
                    Ok((ps, e)) => {
                        proof {
                            assert(tok_step(tokv(toks@), j + 1, e as int) == e as int);
                        }
                        match walk_prefs(toks, e) {
                            Err(e2) => Err(e2),
                            Ok((sp, pp, end)) => {
                                if sp.is_some() {
                                    Err(Error::Markup(j))
                                } else {
                                    Ok((Some(ps), pp, end))
                                }
                            },
                        }
                    },
                }
            } else if str_eq(name.as_str(), "PluginsPreferences") {
                match walk_plugin_prefs(toks, j + 1) {
                    Err(e) => Err(e),
                    Ok((ps, e)) => {
                        proof {
                            assert(tok_step(tokv(toks@), j + 1, e as int) == e as int);
                        }
                        match walk_prefs(toks, e) {
                            Err(e2) => Err(e2),
                            Ok((sp, pp, end)) => {
                                if pp.is_some() {
                                    Err(Error::Markup(j))
                                } else {
                                    Ok((sp, Some(ps), end))
                                }
                            },
                        }
                    },
                }
            } else {
                match skip_past(toks, j + 1) {
                    Err(e) => Err(e),
                    Ok(e0) => {
                        proof {
                            assert(tok_step(tokv(toks@), j + 1, e0 as int) == e0 as int);
                        }
                        walk_prefs(toks, e0)
                    },
                }
            }
        },
    }
}

/// The children of the policy element, as [`policy_children`] describes
/// them.
#[verifier::rlimit(100)]
fn walk_policy(toks: &Vec<XmlToken>, j: usize) -> (r: Result<
    (
        Option<crate::parser::policy::Preferences>,
        Option<Vec<crate::parser::policy::FamilyItem>>,
        Option<Vec<crate::parser::policy::PluginItem>>,
        usize,
    ),
    Error,
>)
    requires
        j <= toks@.len(),
    ensures
        match policy_children(tokv(toks@), j as int) {
            Ok(p) => r matches Ok((op, of, oi, e)) && ({
                &&& (match op {
                    Some(v) => p.0 matches Some(pv) && v@ == pv,
                    None => p.0 is None,
                })
                &&& (match of {
                    Some(v) => p.1 matches Some(fv) && v@.map_values(
                        |x: crate::parser::policy::FamilyItem| x@,
                    ) == fv,
                    None => p.1 is None,
                })
                &&& (match oi {
                    Some(v) => p.2 matches Some(iv) && v@.map_values(
                        |x: crate::parser::policy::PluginItem| x@,
                    ) == iv,
                    None => p.2 is None,
                })
                &&& e as int == p.3
                &&& j < e <= toks@.len()
            }),
            Err(f) => r matches Err(err) && error_matches(err, f),
        },
    decreases toks@.len() - j,
{
    let n = toks.len();
    if j >= n {
        return Err(Error::Markup(j));
    }
    proof {
        assert(tokv(toks@)[j as int] == toks@[j as int]@);
    }
    match &toks[j] {
        XmlToken::Close { name } => {
            if str_eq(name.as_str(), "Policy") {
                Ok((None, None, None, j + 1))
            } else {
                Err(Error::Markup(j))
            }
        },
        XmlToken::Text { value } => {
            if blank(value.as_str()) {
                walk_policy(toks, j + 1)
            } else {
                Err(Error::Markup(j))
            }
        },
        XmlToken::Empty { name, .. } => {
            if str_eq(name.as_str(), "Preferences") {
                Err(Error::MissingField("server_preferences".to_owned()))
            } else if str_eq(name.as_str(), "FamilySelection") {
                match walk_policy(toks, j + 1) {
                    Err(e) => Err(e),
                    Ok((op, of, oi, e)) => {
                        if of.is_some() {
                            Err(Error::Markup(j))
                        } else {
                            let ps: Vec<crate::parser::policy::FamilyItem> = Vec::new();
                            proof {
                                assert(ps@.map_values(|x: crate::parser::policy::FamilyItem| x@)
                                    =~= Seq::<FamilyItemV>::empty());
                            }
                            Ok((op, Some(ps), oi, e))
                        }
                    },
                }
            } else if str_eq(name.as_str(), "IndividualPluginSelection") {
                match walk_policy(toks, j + 1) {
                    Err(e) => Err(e),
                    Ok((op, of, oi, e)) => {
                        if oi.is_some() {
                            Err(Error::Markup(j))
                        } else {
                            let ps: Vec<crate::parser::policy::PluginItem> = Vec::new();
                            proof {
                                assert(ps@.map_values(|x: crate::parser::policy::PluginItem| x@)
                                    =~= Seq::<PluginItemV>::empty());
                            }
                            Ok((op, of, Some(ps), e))
                        }
                    },
                }
            } else {
                walk_policy(toks, j + 1)
            }
        },
        XmlToken::Open { name, .. } => {
            if str_eq(name.as_str(), "Preferences") {
                match walk_prefs(toks, j + 1) {
                    Err(e) => Err(e),
                    Ok((sp, pp, e)) => {
                        proof {
                            assert(tok_step(tokv(toks@), j + 1, e as int) == e as int);
                        }
                        let spv = match sp {
                            Some(v) => v,
                            None => {
                                return Err(Error::MissingField("server_preferences".to_owned()));
                            },
                        };
                        let ppv = match pp {
                            Some(v) => v,
                            None => {
                                return Err(Error::MissingField("plugins_preferences".to_owned()));
                            },
                        };
                        let prefs = crate::parser::policy::Preferences {
                            server_preferences: crate::parser::policy::ServerPreferences {
                                preferences: spv,
                            },
                            plugins_preferences: crate::parser::policy::PluginsPreferences {
                                preferences: ppv,
                            },
                        };
                        proof {
                            let sv = prefs_children(tokv(toks@), j + 1)->Ok_0.0->Some_0;
                            let pv = prefs_children(tokv(toks@), j + 1)->Ok_0.1->Some_0;
                            assert(prefs@.server_preferences =~= sv);
                            assert(prefs@.plugins_preferences =~= pv);
                        }
                        match walk_policy(toks, e) {
                            Err(e2) => Err(e2),
                            Ok((op, of, oi, end)) => {
                                if op.is_some() {
                                    Err(Error::Markup(j))
                                } else {
                                    Ok((Some(prefs), of, oi, end))
                                }
                            },
                        }
                    },
                }
            } else if str_eq(name.as_str(), "FamilySelection") {
                match walk_family(toks, j + 1) {
                    Err(e) => Err(e),
                    Ok((ps, e)) => {
                        proof {
                            assert(tok_step(tokv(toks@), j + 1, e as int) == e as int);
                        }
                        match walk_policy(toks, e) {
                            Err(e2) => Err(e2),
                            Ok((op, of, oi, end)) => {
                                if of.is_some() {
                                    Err(Error::Markup(j))
                                } else {
                                    Ok((op, Some(ps), oi, end))
                                }
                            },
                        }
                    },
                }
            } else if str_eq(name.as_str(), "IndividualPluginSelection") {
                match walk_plugin_sel(toks, j + 1) {
                    Err(e) => Err(e),
                    Ok((ps, e)) => {
                        proof {
                            assert(tok_step(tokv(toks@), j + 1, e as int) == e as int);
                        }
                        match walk_policy(toks, e) {
                            Err(e2) => Err(e2),
                            Ok((op, of, oi, end)) => {
                                if oi.is_some() {
                                    Err(Error::Markup(j))
                                } else {
                                    Ok((op, of, Some(ps), end))
                                }
                            },
                        }
                    },
                }
            } else {
                match skip_past(toks, j + 1) {
                    Err(e) => Err(e),
                    Ok(e0) => {
                        proof {
                            assert(tok_step(tokv(toks@), j + 1, e0 as int) == e0 as int);
                        }
                        walk_policy(toks, e0)
                    },
                }
            }
        },
    }
}

/// The children of the document root, as [`root_children`] describes
/// them.
#[verifier::rlimit(100)]
fn walk_root(toks: &Vec<XmlToken>, j: usize) -> (r: Result<
    (
        Option<crate::parser::report::Report>,
        Option<crate::parser::policy::Policy>,
        usize,
    ),
    Error,
>)
    requires
        j <= toks@.len(),
    ensures
        match root_children(tokv(toks@), j as int) {
            Ok(p) => r matches Ok((or, op, e)) && ({
                &&& (match or {
                    Some(v) => p.0 matches Some(rv) && v@ == rv,
                    None => p.0 is None,
                })
                &&& (match op {
                    Some(v) => p.1 matches Some(pv) && v@ == pv,
                    None => p.1 is None,
                })
                &&& e as int == p.2
                &&& j < e <= toks@.len()
            }),
            Err(f) => r matches Err(err) && error_matches(err, f),
        },
    decreases toks@.len() - j,
{
    let n = toks.len();
    if j >= n {
        return Err(Error::Markup(j));
    }
    proof {
        assert(tokv(toks@)[j as int] == toks@[j as int]@);
    }
    match &toks[j] {
        XmlToken::Close { name } => {
            if str_eq(name.as_str(), "NessusClientData_v2") {
                Ok((None, None, j + 1))
            } else {
                Err(Error::Markup(j))
            }
        },
        XmlToken::Text { value } => {
            if blank(value.as_str()) {
                walk_root(toks, j + 1)
            } else {
                Err(Error::Markup(j))
            }
        },
        XmlToken::Empty { name, attrs } => {
            if str_eq(name.as_str(), "Report") {
                let afs = attr_fields(attrs);
                let rname = match get_req(&afs, "name") {
                    Ok(v) => v,
                    Err(e) => {
                        return Err(e);
                    },
                };
                let report = crate::parser::report::Report {
                    name: rname,
                    report_hosts: Vec::new(),
                };
                proof {
                    assert(report@.report_hosts =~= Seq::<ReportHostV>::empty());
                }
                match walk_root(toks, j + 1) {
                    Err(e) => Err(e),
                    Ok((or, op, e)) => {
                        if or.is_some() {
                            Err(Error::Markup(j))
                        } else {
                            Ok((Some(report), op, e))
                        }
                    },
                }
            } else if str_eq(name.as_str(), "Policy") {
                Err(Error::MissingField("preferences".to_owned()))
            } else {
                walk_root(toks, j + 1)
            }
        },
        XmlToken::Open { name, attrs } => {
            if str_eq(name.as_str(), "Report") {
                match walk_report(toks, j + 1) {
                    Err(e) => Err(e),
                    Ok((rfs, hosts, e)) => {
                        proof {
                            assert(tok_step(tokv(toks@), j + 1, e as int) == e as int);
                        }
                        let all = combine_fields(attrs, &rfs);
                        let rname = match get_req(&all, "name") {
                            Ok(v) => v,
                            Err(e2) => {
                                return Err(e2);
                            },
                        };
                        let report = crate::parser::report::Report {
                            name: rname,
                            report_hosts: hosts,
                        };
                        proof {
                            assert(report@.report_hosts =~= report_children(
                                tokv(toks@),
                                j + 1,
                            )->Ok_0.1);
                        }
                        match walk_root(toks, e) {
                            Err(e2) => Err(e2),
                            Ok((or, op, end)) => {
                                if or.is_some() {
                                    Err(Error::Markup(j))
                                } else {
                                    Ok((Some(report), op, end))
                                }
                            },
                        }
                    },
                }
            } else if str_eq(name.as_str(), "Policy") {
                match walk_policy(toks, j + 1) {
                    Err(e) => Err(e),
                    Ok((op0, of, oi, e)) => {
                        proof {
                            assert(tok_step(tokv(toks@), j + 1, e as int) == e as int);
                        }
                        let prefs = match op0 {
                            Some(v) => v,
                            None => {
                                return Err(Error::MissingField("preferences".to_owned()));
                            },
                        };
                        let fam = match of {
                            Some(v) => v,
                            None => {
                                return Err(Error::MissingField("family_selection".to_owned()));
                            },
                        };
                        let ip = match oi {
                            Some(v) => v,
                            None => {
                                return Err(
                                    Error::MissingField("individual_plugin_selection".to_owned()),
                                );
                            },
                        };
                        let pol = crate::parser::policy::Policy {
                            preferences: prefs,
                            family_selection: crate::parser::policy::FamilySelection {
                                family_items: fam,
                            },
                            individual_plugin_selection:
                                crate::parser::policy::IndividualPluginSelection {
                                plugin_items: ip,
                            },
                        };
                        proof {
                            let pc = policy_children(tokv(toks@), j + 1)->Ok_0;
                            assert(pol@.family_selection.family_items =~= pc.1->Some_0);
                            assert(pol@.individual_plugin_selection.plugin_items =~= pc.2
                                ->Some_0);
                        }
                        match walk_root(toks, e) {
                            Err(e2) => Err(e2),
                            Ok((or, op, end)) => {
                                if op.is_some() {
                                    Err(Error::Markup(j))
                                } else {
                                    Ok((or, Some(pol), end))
                                }
                            },
                        }
                    },
                }
            } else {
                match skip_past(toks, j + 1) {
                    Err(e) => Err(e),
                    Ok(e0) => {
                        proof {
                            assert(tok_step(tokv(toks@), j + 1, e0 as int) == e0 as int);
                        }
                        walk_root(toks, e0)
                    },
                }
            }
        },
    }
}

/// The position after any leading whitespace-only text tokens.
fn blank_end(toks: &Vec<XmlToken>, j: usize) -> (r: usize)
    requires
        j <= toks@.len(),
    ensures
        r == skip_blank(tokv(toks@), j as int),
        j <= r <= toks@.len(),
{
    let n = toks.len();
    let mut cur: usize = j;
    loop
        invariant
            n == toks@.len(),
            j <= cur <= n,
            skip_blank(tokv(toks@), j as int) == skip_blank(tokv(toks@), cur as int),
        decreases n - cur,
    {
        if cur == n {
            return cur;
        }
        proof {
            assert(tokv(toks@)[cur as int] == toks@[cur as int]@);
        }
        match &toks[cur] {
            XmlToken::Text { value } => {
                if !blank(value.as_str()) {
                    return cur;
                }
            },
            _ => {
                return cur;
            },
        }
        cur = cur + 1;
    }
}

/// Decodes a token stream into the report model, as [`document_of`]
/// describes.
pub fn build_document(toks: &Vec<XmlToken>) -> (r: Result<crate::parser::NessusClientDatav2, Error>)
    ensures
        match document_of(tokv(toks@)) {
            Ok(m) => r matches Ok(d) && d@ == m,
            Err(f) => r matches Err(e) && error_matches(e, f),
        },
{
    let n = toks.len();
    let j = blank_end(toks, 0);
    proof {
        assert(at_least_tok(0, skip_blank(tokv(toks@), 0)) == j as int);
    }
    if j >= n {
        return Err(Error::Markup(j));
    }
    proof {
        assert(tokv(toks@)[j as int] == toks@[j as int]@);
    }
    match &toks[j] {
        XmlToken::Open { name, .. } => {
            if str_eq(name.as_str(), "NessusClientData_v2") {
                match walk_root(toks, j + 1) {
                    Err(e) => Err(e),
                    Ok((or, op, e)) => {
                        let report = match or {
                            Some(v) => v,
                            None => {
                                return Err(Error::MissingField("report".to_owned()));
                            },
                        };
                        let policy = match op {
                            Some(v) => v,
                            None => {
                                return Err(Error::MissingField("policy".to_owned()));
                            },
                        };
                        let t = blank_end(toks, e);
                        if t < n {
                            Err(Error::Markup(t))
                        } else {
                            Ok(crate::parser::NessusClientDatav2 { report, policy })
                        }
                    },
                }
            } else {
                Err(Error::Markup(j))
            }
        },
        _ => Err(Error::Markup(j)),
    }
}

} // verus!
