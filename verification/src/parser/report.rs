//! The scan-result half of a parsed report document: hosts, their
//! property tags, and the findings reported for each host.

use vstd::prelude::*;

verus! {

/// Scan results: a named report holding the scanned hosts in document order.
#[derive(Debug, Clone)]
pub struct Report {
    pub name: String,
    pub report_hosts: Vec<ReportHost>,
}

/// One scanned host: its name, its property tags, and its findings in
/// document order.
#[derive(Debug, Clone)]
pub struct ReportHost {
    pub name: String,
    pub host_properties: HostProperties,
    pub report_items: Vec<ReportItem>,
}

/// Arbitrary name/value tags attached to a host.
#[derive(Debug, Clone)]
pub struct HostProperties {
    pub tags: Vec<Tag>,
}

/// One host property: a name and its free-form value.
#[derive(Debug, Clone)]
pub struct Tag {
    pub name: String,
    pub value: String,
}

/// One finding: the port and service it concerns, the plugin that raised
/// it, and its narrative fields. Severity is carried as text because the
/// source serialization cannot reliably encode it as a number in this
/// position; it is coerced to an integer only when an advisory is built.
#[derive(Debug, Clone)]
pub struct ReportItem {
    pub port: String,
    pub svc_name: String,
    pub protocol: String,
    pub severity: String,
    pub plugin_id: String,
    pub plugin_name: String,
    pub plugin_family: String,
    pub description: String,
    pub fname: String,
    pub plugin_modification_date: String,
    pub plugin_publication_date: String,
    pub plugin_type: String,
    pub risk_factor: String,
    pub script_version: String,
    pub solution: String,
    pub synopsis: String,
    pub plugin_output: Option<String>,
}

/// Mathematical image of a `Report`.
pub struct ReportV {
    pub name: Seq<char>,
    pub report_hosts: Seq<ReportHostV>,
}

/// Mathematical image of a `ReportHost`.
pub struct ReportHostV {
    pub name: Seq<char>,
    pub host_properties: HostPropertiesV,
    pub report_items: Seq<ReportItemV>,
}

/// Mathematical image of `HostProperties`.
pub struct HostPropertiesV {
    pub tags: Seq<TagV>,
}

/// Mathematical image of a `Tag`.
pub struct TagV {
    pub name: Seq<char>,
    pub value: Seq<char>,
}

/// Mathematical image of a `ReportItem`.
pub struct ReportItemV {
    pub port: Seq<char>,
    pub svc_name: Seq<char>,
    pub protocol: Seq<char>,
    pub severity: Seq<char>,
    pub plugin_id: Seq<char>,
    pub plugin_name: Seq<char>,
    pub plugin_family: Seq<char>,
    pub description: Seq<char>,
    pub fname: Seq<char>,
    pub plugin_modification_date: Seq<char>,
    pub plugin_publication_date: Seq<char>,
    pub plugin_type: Seq<char>,
    pub risk_factor: Seq<char>,
    pub script_version: Seq<char>,
    pub solution: Seq<char>,
    pub synopsis: Seq<char>,
    pub plugin_output: Option<Seq<char>>,
}

impl View for Report {
    type V = ReportV;

    open spec fn view(&self) -> ReportV {
        ReportV {
            name: self.name@,
            report_hosts: self.report_hosts@.map_values(|h: ReportHost| h@),
        }
    }
}

impl View for ReportHost {
    type V = ReportHostV;

    open spec fn view(&self) -> ReportHostV {
        ReportHostV {
            name: self.name@,
            host_properties: self.host_properties@,
            report_items: self.report_items@.map_values(|i: ReportItem| i@),
        }
    }
}

impl View for HostProperties {
    type V = HostPropertiesV;

    open spec fn view(&self) -> HostPropertiesV {
        HostPropertiesV { tags: self.tags@.map_values(|t: Tag| t@) }
    }
}

impl View for Tag {
    type V = TagV;

    open spec fn view(&self) -> TagV {
        TagV { name: self.name@, value: self.value@ }
    }
}

impl View for ReportItem {
    type V = ReportItemV;

    open spec fn view(&self) -> ReportItemV {
        ReportItemV {
            port: self.port@,
            svc_name: self.svc_name@,
            protocol: self.protocol@,
            severity: self.severity@,
            plugin_id: self.plugin_id@,
            plugin_name: self.plugin_name@,
            plugin_family: self.plugin_family@,
            description: self.description@,
            fname: self.fname@,
            plugin_modification_date: self.plugin_modification_date@,
            plugin_publication_date: self.plugin_publication_date@,
            plugin_type: self.plugin_type@,
            risk_factor: self.risk_factor@,
            script_version: self.script_version@,
            solution: self.solution@,
            synopsis: self.synopsis@,
            plugin_output: match self.plugin_output {
                Some(ref s) => Some(s@),
                None => None,
            },
        }
    }
}

} // verus!
