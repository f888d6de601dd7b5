use nessus::parser::report::ReportItem;
use nessus::parser::{parse, Error, PatchAdvice};

fn item(severity: &str, plugin_output: Option<String>) -> ReportItem {
    ReportItem {
        port: "0".to_owned(),
        svc_name: "general".to_owned(),
        protocol: "tcp".to_owned(),
        severity: severity.to_owned(),
        plugin_id: "101322".to_owned(),
        plugin_name: "Debian DSA-3904-1 : bind9 - security update".to_owned(),
        plugin_family: "Debian Local Security Checks".to_owned(),
        description: "two vulnerabilities in BIND".to_owned(),
        fname: "debian_DSA-3904.nasl".to_owned(),
        plugin_modification_date: "2017/07/12".to_owned(),
        plugin_publication_date: "2017/07/10".to_owned(),
        plugin_type: "local".to_owned(),
        risk_factor: "High".to_owned(),
        script_version: "$Revision: 3.3 $".to_owned(),
        solution: "Upgrade the bind9 packages.".to_owned(),
        synopsis: "The remote Debian host is missing a security-related update.".to_owned(),
        plugin_output,
    }
}

#[test]
fn test_debian_patch_advice() {
    let item = ReportItem {
        port: "0".to_owned(),
        svc_name: "general".to_owned(),
        protocol: "tcp".to_owned(),
        severity: "3".to_owned(),
        plugin_id: "101322".to_owned(),
        plugin_name: "Debian DSA-3904-1 : bind9 - security update".to_owned(),
        plugin_family: "Debian Local Security Checks".to_owned(),
        description: "Clement Berthaux from Synaktiv discovered two vulnerabilities in BIND, a DNS server implementation. They allow an attacker to bypass TSIG authentication by sending crafted DNS packets to a server.\n\n  - CVE-2017-3142     An attacker who is able to send and receive messages to     an authoritative DNS server and who has knowledge of a     valid TSIG key name may be able to circumvent TSIG     authentication of AXFR requests via a carefully     constructed request packet. A server that relies solely     on TSIG keys for protection with no other ACL protection     could be manipulated into :\n\n    - providing an AXFR of a zone to an unauthorized       recipient\n    - accepting bogus NOTIFY packets\n\n  - CVE-2017-3143     An attacker who is able to send and receive messages to     an authoritative DNS server and who has knowledge of a     valid TSIG key name for the zone and service being     targeted may be able to manipulate BIND into accepting     an unauthorized dynamic update.".to_owned(),
        fname: "debian_DSA-3904.nasl".to_owned(),
        plugin_modification_date: "2017/07/12".to_owned(),
        plugin_publication_date: "2017/07/10".to_owned(),
        plugin_type: "local".to_owned(),
        risk_factor: "High".to_owned(),
        script_version: "$Revision: 3.3 $".to_owned(),
        solution: "Upgrade the bind9 packages.\n\nFor the oldstable distribution (jessie), these problems have been fixed in version 1:9.9.5.dfsg-9+deb8u12.\n\nFor the stable distribution (stretch), these problems have been fixed in version 1:9.10.3.dfsg.P4-12.3+deb9u1.".to_owned(),
        synopsis: "The remote Debian host is missing a security-related update.".to_owned(),
        plugin_output: Some("Remote package installed : bind9-host_1:9.9.5.dfsg-9+deb8u11\nShould be : bind9-host_1:9.9.5.dfsg-9+deb8u12\nRemote package installed : dnsutils_1:9.9.5.dfsg-9+deb8u11\nShould be : dnsutils_1:9.9.5.dfsg-9+deb8u12\nRemote package installed : libbind9-90_1:9.9.5.dfsg-9+deb8u11\nShould be : libbind9-90_1:9.9.5.dfsg-9+deb8u12\nRemote package installed : libdns-export100_1:9.9.5.dfsg-9+deb8u11\nShould be : libdns-export100_1:9.9.5.dfsg-9+deb8u12\nRemote package installed : libdns100_1:9.9.5.dfsg-9+deb8u11\nShould be : libdns100_1:9.9.5.dfsg-9+deb8u12\nRemote package installed : libirs-export91_1:9.9.5.dfsg-9+deb8u11\nShould be : libirs-export91_1:9.9.5.dfsg-9+deb8u12\nRemote package installed : libisc-export95_1:9.9.5.dfsg-9+deb8u11\nShould be : libisc-export95_1:9.9.5.dfsg-9+deb8u12\nRemote package installed : libisc95_1:9.9.5.dfsg-9+deb8u11\nShould be : libisc95_1:9.9.5.dfsg-9+deb8u12\nRemote package installed : libisccc90_1:9.9.5.dfsg-9+deb8u11\nShould be : libisccc90_1:9.9.5.dfsg-9+deb8u12\nRemote package installed : libisccfg-export90_1:9.9.5.dfsg-9+deb8u11\nShould be : libisccfg-export90_1:9.9.5.dfsg-9+deb8u12\nRemote package installed : libisccfg90_1:9.9.5.dfsg-9+deb8u11\nShould be : libisccfg90_1:9.9.5.dfsg-9+deb8u12\nRemote package installed : liblwres90_1:9.9.5.dfsg-9+deb8u11\nShould be : liblwres90_1:9.9.5.dfsg-9+deb8u12".to_owned())
    };

    let patch_advice = item.patch_needed().unwrap();
    assert_eq!(patch_advice, Some(vec![
        PatchAdvice::new("bind9-host_1:9.9.5.dfsg-9+deb8u11", "bind9-host_1:9.9.5.dfsg-9+deb8u12", 3),
        PatchAdvice::new("dnsutils_1:9.9.5.dfsg-9+deb8u11", "dnsutils_1:9.9.5.dfsg-9+deb8u12", 3),
        PatchAdvice::new("libbind9-90_1:9.9.5.dfsg-9+deb8u11", "libbind9-90_1:9.9.5.dfsg-9+deb8u12", 3),
        PatchAdvice::new("libdns-export100_1:9.9.5.dfsg-9+deb8u11", "libdns-export100_1:9.9.5.dfsg-9+deb8u12", 3),
        PatchAdvice::new("libdns100_1:9.9.5.dfsg-9+deb8u11", "libdns100_1:9.9.5.dfsg-9+deb8u12", 3),
        PatchAdvice::new("libirs-export91_1:9.9.5.dfsg-9+deb8u11", "libirs-export91_1:9.9.5.dfsg-9+deb8u12", 3),
        PatchAdvice::new("libisc-export95_1:9.9.5.dfsg-9+deb8u11", "libisc-export95_1:9.9.5.dfsg-9+deb8u12", 3),
        PatchAdvice::new("libisc95_1:9.9.5.dfsg-9+deb8u11", "libisc95_1:9.9.5.dfsg-9+deb8u12", 3),
        PatchAdvice::new("libisccc90_1:9.9.5.dfsg-9+deb8u11", "libisccc90_1:9.9.5.dfsg-9+deb8u12", 3),
        PatchAdvice::new("libisccfg-export90_1:9.9.5.dfsg-9+deb8u11", "libisccfg-export90_1:9.9.5.dfsg-9+deb8u12", 3),
        PatchAdvice::new("libisccfg90_1:9.9.5.dfsg-9+deb8u11", "libisccfg90_1:9.9.5.dfsg-9+deb8u12", 3),
        PatchAdvice::new("liblwres90_1:9.9.5.dfsg-9+deb8u11", "liblwres90_1:9.9.5.dfsg-9+deb8u12", 3)
    ]));
}

#[test]
fn no_narrative_yields_no_result() {
    let finding = item("3", None);
    assert_eq!(finding.patch_needed(), Ok(None));
}

#[test]
fn narrative_without_notice_yields_no_result() {
    let finding = item("3", Some("Nothing of interest in this output.".to_owned()));
    assert_eq!(finding.patch_needed(), Ok(None));
}

#[test]
fn single_generic_notice_yields_one_advisory() {
    let finding = item("2", Some("Remote package installed : pkg_1.0\nShould be : pkg_1.1".to_owned()));
    assert_eq!(
        finding.patch_needed(),
        Ok(Some(vec![PatchAdvice::new("pkg_1.0", "pkg_1.1", 2)]))
    );
}

#[test]
fn repeated_notices_yield_advisories_in_order() {
    let finding = item(
        "1",
        Some(
            "Remote package installed : a_1\nShould be : a_2\nRemote package installed : b_1\nShould be : b_2\nRemote package installed : c_1\nShould be : c_2"
                .to_owned(),
        ),
    );
    assert_eq!(
        finding.patch_needed(),
        Ok(Some(vec![
            PatchAdvice::new("a_1", "a_2", 1),
            PatchAdvice::new("b_1", "b_2", 1),
            PatchAdvice::new("c_1", "c_2", 1),
        ]))
    );
}

#[test]
fn runtime_notice_yields_one_advisory() {
    let finding = item(
        "3",
        Some(
            "The following vulnerable instance of Java is installed on the\nremote host :\n\n  Path              : /usr/lib/jvm\n  Installed version : 1.8.0_101\n  Fixed version     : 1.8.0_141".to_owned(),
        ),
    );
    assert_eq!(
        finding.patch_needed(),
        Ok(Some(vec![PatchAdvice::new("1.8.0_101", "1.8.0_141", 3)]))
    );
}

#[test]
fn package_notice_yields_one_advisory() {
    let finding = item(
        "2",
        Some("- Installed package : tzdata_2017a\n    Fixed package     : tzdata_2017b".to_owned()),
    );
    assert_eq!(
        finding.patch_needed(),
        Ok(Some(vec![PatchAdvice::new("tzdata_2017a", "tzdata_2017b", 2)]))
    );
}

#[test]
fn non_numeric_severity_fails_coercion() {
    let finding = item("High", Some("Remote package installed : a_1\nShould be : a_2".to_owned()));
    assert_eq!(finding.patch_needed(), Err(Error::Severity("High".to_owned())));
}

#[test]
fn non_numeric_severity_without_notice_is_no_result() {
    // coercion happens at advisory construction, so a finding without any
    // notice never reads its severity
    let finding = item("High", None);
    assert_eq!(finding.patch_needed(), Ok(None));
}

#[test]
fn host_aggregation_preserves_finding_order() {
    let first = item("3", Some("Remote package installed : a_1\nShould be : a_2".to_owned()));
    let second = item("2", Some("- Installed package : b_1\n    Fixed package     : b_2".to_owned()));
    let silent = item("1", None);
    let host = nessus::parser::report::ReportHost {
        name: "web01".to_owned(),
        host_properties: nessus::parser::report::HostProperties { tags: vec![] },
        report_items: vec![first.clone(), silent, second.clone()],
    };
    let combined = host.patch_needed().unwrap().unwrap();
    let mut expected = first.patch_needed().unwrap().unwrap();
    expected.extend(second.patch_needed().unwrap().unwrap());
    assert_eq!(combined, expected);
    assert_eq!(combined, vec![
        PatchAdvice::new("a_1", "a_2", 3),
        PatchAdvice::new("b_1", "b_2", 2),
    ]);
}

#[test]
fn host_without_matches_yields_no_result() {
    let host = nessus::parser::report::ReportHost {
        name: "web01".to_owned(),
        host_properties: nessus::parser::report::HostProperties { tags: vec![] },
        report_items: vec![item("3", None), item("2", Some("all quiet".to_owned()))],
    };
    assert_eq!(host.patch_needed(), Ok(None));
}

fn item_xml(severity: &str, plugin_output: Option<&str>) -> String {
    let output = match plugin_output {
        Some(o) => format!("<plugin_output>{}</plugin_output>", o),
        None => String::new(),
    };
    format!(
        "<ReportItem port=\"0\" svc_name=\"general\" protocol=\"tcp\" severity=\"{}\" pluginID=\"101322\" pluginName=\"Debian DSA-3904-1 : bind9 - security update\" pluginFamily=\"Debian Local Security Checks\"><description>d</description><fname>debian_DSA-3904.nasl</fname><plugin_modification_date>2017/07/12</plugin_modification_date><plugin_publication_date>2017/07/10</plugin_publication_date><plugin_type>local</plugin_type><risk_factor>High</risk_factor><script_version>$Revision: 3.3 $</script_version><solution>s</solution><synopsis>y</synopsis>{}</ReportItem>",
        severity, output
    )
}

fn host_xml(name: &str, items: &str) -> String {
    format!(
        "<ReportHost name=\"{}\"><HostProperties><tag name=\"operating-system\">Debian</tag></HostProperties>{}</ReportHost>",
        name, items
    )
}

const POLICY_XML: &str = "<Policy><policyName>Basic</policyName><Preferences><ServerPreferences><preference><name>max_hosts</name><value>30</value></preference></ServerPreferences><PluginsPreferences><item><pluginName>p</pluginName><pluginId>42</pluginId><fullName>f</fullName><preferenceName>n</preferenceName><preferenceType>entry</preferenceType><preferenceValues>v</preferenceValues><selectedValue>s</selectedValue></item></PluginsPreferences></Preferences><FamilySelection><FamilyItem><FamilyName>Debian Local Security Checks</FamilyName><Status>enabled</Status></FamilyItem></FamilySelection><IndividualPluginSelection></IndividualPluginSelection></Policy>";

fn doc_xml(report_name: &str, hosts: &str) -> String {
    format!(
        "<?xml version=\"1.0\" ?>\n<NessusClientData_v2>{}<Report name=\"{}\">{}</Report></NessusClientData_v2>\n",
        POLICY_XML, report_name, hosts
    )
}

#[test]
fn parse_counts_hosts_and_findings() {
    // two hosts with three and two findings: the model mirrors the
    // document's literal element counts
    let h1 = host_xml(
        "web01",
        &format!("{}{}{}", item_xml("3", None), item_xml("2", None), item_xml("1", None)),
    );
    let h2 = host_xml("db01", &format!("{}{}", item_xml("0", None), item_xml("4", None)));
    let doc = doc_xml("weekly", &format!("{}{}", h1, h2));
    let parsed = parse(&doc).unwrap();
    assert_eq!(parsed.report.name, "weekly");
    assert_eq!(parsed.report.report_hosts.len(), 2);
    let total: usize = parsed.report.report_hosts.iter().map(|h| h.report_items.len()).sum();
    assert_eq!(total, 5);
    assert_eq!(parsed.report.report_hosts[0].name, "web01");
    assert_eq!(parsed.report.report_hosts[0].report_items.len(), 3);
    assert_eq!(parsed.report.report_hosts[1].name, "db01");
    assert_eq!(parsed.report.report_hosts[1].report_items.len(), 2);
    // the policy side is carried through
    assert_eq!(parsed.policy.preferences.server_preferences.preferences.len(), 1);
    assert_eq!(parsed.policy.preferences.server_preferences.preferences[0].name, "max_hosts");
    assert_eq!(parsed.policy.preferences.plugins_preferences.preferences[0].plugin_id, 42);
    assert_eq!(parsed.policy.family_selection.family_items.len(), 1);
    assert_eq!(parsed.policy.individual_plugin_selection.plugin_items.len(), 0);
}

#[test]
fn parse_then_extract_single_finding() {
    // one finding whose narrative holds exactly one upgrade notice
    let narrative = "Remote package installed : bind9-host_1:9.9.5.dfsg-9+deb8u11\nShould be : bind9-host_1:9.9.5.dfsg-9+deb8u12";
    let doc = doc_xml("audit", &host_xml("web01", &item_xml("3", Some(narrative))));
    let parsed = parse(&doc).unwrap();
    assert_eq!(parsed.report.report_hosts.len(), 1);
    let host = &parsed.report.report_hosts[0];
    assert_eq!(host.report_items.len(), 1);
    assert_eq!(host.report_items[0].severity, "3");
    assert_eq!(host.report_items[0].plugin_output.as_deref(), Some(narrative));
    let advice = host.patch_needed().unwrap();
    assert_eq!(
        advice,
        Some(vec![PatchAdvice::new(
            "bind9-host_1:9.9.5.dfsg-9+deb8u11",
            "bind9-host_1:9.9.5.dfsg-9+deb8u12",
            3
        )])
    );
}

#[test]
fn parse_decodes_character_references() {
    let doc = doc_xml(
        "x &amp; y",
        &host_xml("a", &item_xml("1", Some("a &lt;b&gt; &amp; &quot;c&quot; &apos;d&apos;"))),
    );
    let parsed = parse(&doc).unwrap();
    assert_eq!(parsed.report.name, "x & y");
    assert_eq!(
        parsed.report.report_hosts[0].report_items[0].plugin_output.as_deref(),
        Some("a <b> & \"c\" 'd'")
    );
}

#[test]
fn parse_keeps_host_tags() {
    let doc = doc_xml("t", &host_xml("web01", &item_xml("1", None)));
    let parsed = parse(&doc).unwrap();
    let tags = &parsed.report.report_hosts[0].host_properties.tags;
    assert_eq!(tags.len(), 1);
    assert_eq!(tags[0].name, "operating-system");
    assert_eq!(tags[0].value, "Debian");
}

#[test]
fn parse_rejects_broken_markup() {
    assert!(matches!(parse("no markup at all"), Err(Error::Markup(_))));
    assert!(matches!(parse("<NessusClientData_v2>"), Err(Error::Markup(_))));
    assert!(matches!(
        parse("<NessusClientData_v2><Report name=\"x\"></NessusClientData_v2>"),
        Err(Error::Markup(_))
    ));
}

#[test]
fn parse_rejects_missing_sections() {
    assert!(matches!(
        parse("<NessusClientData_v2></NessusClientData_v2>"),
        Err(Error::MissingField(f)) if f == "report"
    ));
    let no_policy = "<NessusClientData_v2><Report name=\"x\"></Report></NessusClientData_v2>";
    assert!(matches!(
        parse(no_policy),
        Err(Error::MissingField(f)) if f == "policy"
    ));
}

#[test]
fn parse_rejects_missing_finding_field() {
    // a finding without its severity attribute
    let bad_item = "<ReportItem port=\"0\" svc_name=\"general\" protocol=\"tcp\" pluginID=\"1\" pluginName=\"n\" pluginFamily=\"f\"><description>d</description><fname>f</fname><plugin_modification_date>m</plugin_modification_date><plugin_publication_date>p</plugin_publication_date><plugin_type>local</plugin_type><risk_factor>High</risk_factor><script_version>1</script_version><solution>s</solution><synopsis>y</synopsis></ReportItem>";
    let doc = doc_xml("x", &host_xml("h", bad_item));
    assert!(matches!(
        parse(&doc),
        Err(Error::MissingField(f)) if f == "severity"
    ));
}

#[test]
fn parse_rejects_non_numeric_plugin_id() {
    let bad_policy = "<Policy><Preferences><ServerPreferences></ServerPreferences><PluginsPreferences></PluginsPreferences></Preferences><FamilySelection></FamilySelection><IndividualPluginSelection><PluginItem><PluginId>abc</PluginId><PluginName>n</PluginName><Family>f</Family><Status>enabled</Status></PluginItem></IndividualPluginSelection></Policy>";
    let doc = format!(
        "<NessusClientData_v2>{}<Report name=\"x\"></Report></NessusClientData_v2>",
        bad_policy
    );
    assert!(matches!(
        parse(&doc),
        Err(Error::Number(t)) if t == "abc"
    ));
}

#[test]
fn parse_skips_unknown_elements() {
    let doc = "<?xml version=\"1.0\" ?><NessusClientData_v2><ServerSettings><some>thing</some></ServerSettings><Policy><Preferences><ServerPreferences></ServerPreferences><PluginsPreferences></PluginsPreferences></Preferences><FamilySelection></FamilySelection><IndividualPluginSelection></IndividualPluginSelection></Policy><Report name=\"r\"></Report></NessusClientData_v2>";
    let parsed = parse(doc).unwrap();
    assert_eq!(parsed.report.name, "r");
    assert_eq!(parsed.report.report_hosts.len(), 0);
}
