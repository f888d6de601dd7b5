//! The scan-configuration half of a parsed report document. These values
//! are carried through unchanged; nothing in the library transforms them.

use vstd::prelude::*;

verus! {

/// Scan configuration: preferences plus the plugin selection.
#[derive(Debug, Clone)]
pub struct Policy {
    pub preferences: Preferences,
    pub family_selection: FamilySelection,
    pub individual_plugin_selection: IndividualPluginSelection,
}

/// Server-wide and per-plugin preferences.
#[derive(Debug, Clone)]
pub struct Preferences {
    pub server_preferences: ServerPreferences,
    pub plugins_preferences: PluginsPreferences,
}

/// The server-wide preference list.
#[derive(Debug, Clone)]
pub struct ServerPreferences {
    pub preferences: Vec<ServerPreference>,
}

/// One server-wide preference: a name and its value.
#[derive(Debug, Clone)]
pub struct ServerPreference {
    pub name: String,
    pub value: String,
}

/// The per-plugin preference list.
#[derive(Debug, Clone)]
pub struct PluginsPreferences {
    pub preferences: Vec<PluginPreference>,
}

/// One per-plugin preference entry.
#[derive(Debug, Clone)]
pub struct PluginPreference {
    pub plugin_name: String,
    pub plugin_id: u64,
    pub full_name: String,
    pub preference_name: String,
    pub preference_type: String,
    pub preference_values: String,
    pub selected_value: String,
}

/// Which plugin families the scan enables.
#[derive(Debug, Clone)]
pub struct FamilySelection {
    pub family_items: Vec<FamilyItem>,
}

/// One plugin family and its enablement status.
#[derive(Debug, Clone)]
pub struct FamilyItem {
    pub family_name: String,
    pub status: String,
}

/// Plugins selected one by one, outside their family's status.
#[derive(Debug, Clone)]
pub struct IndividualPluginSelection {
    pub plugin_items: Vec<PluginItem>,
}

/// One individually selected plugin.
#[derive(Debug, Clone)]
pub struct PluginItem {
    pub plugin_id: u64,
    pub plugin_name: String,
    pub family: String,
    pub status: String,
}

/// Mathematical image of a `Policy`.
pub struct PolicyV {
    pub preferences: PreferencesV,
    pub family_selection: FamilySelectionV,
    pub individual_plugin_selection: IndividualPluginSelectionV,
}

/// Mathematical image of `Preferences`.
pub struct PreferencesV {
    pub server_preferences: Seq<ServerPreferenceV>,
    pub plugins_preferences: Seq<PluginPreferenceV>,
}

/// Mathematical image of a `ServerPreference`.
pub struct ServerPreferenceV {
    pub name: Seq<char>,
    pub value: Seq<char>,
}

/// Mathematical image of a `PluginPreference`.
pub struct PluginPreferenceV {
    pub plugin_name: Seq<char>,
    pub plugin_id: u64,
    pub full_name: Seq<char>,
    pub preference_name: Seq<char>,
    pub preference_type: Seq<char>,
    pub preference_values: Seq<char>,
    pub selected_value: Seq<char>,
}

/// Mathematical image of a `FamilySelection`.
pub struct FamilySelectionV {
    pub family_items: Seq<FamilyItemV>,
}

/// Mathematical image of a `FamilyItem`.
pub struct FamilyItemV {
    pub family_name: Seq<char>,
    pub status: Seq<char>,
}

/// Mathematical image of an `IndividualPluginSelection`.
pub struct IndividualPluginSelectionV {
    pub plugin_items: Seq<PluginItemV>,
}

/// Mathematical image of a `PluginItem`.
pub struct PluginItemV {
    pub plugin_id: u64,
    pub plugin_name: Seq<char>,
    pub family: Seq<char>,
    pub status: Seq<char>,
}

impl View for Policy {
    type V = PolicyV;

    open spec fn view(&self) -> PolicyV {
        PolicyV {
            preferences: self.preferences@,
            family_selection: self.family_selection@,
            individual_plugin_selection: self.individual_plugin_selection@,
        }
    }
}

impl View for Preferences {
    type V = PreferencesV;

    open spec fn view(&self) -> PreferencesV {
        PreferencesV {
            server_preferences: self.server_preferences.preferences@.map_values(
                |p: ServerPreference| p@,
            ),
            plugins_preferences: self.plugins_preferences.preferences@.map_values(
                |p: PluginPreference| p@,
            ),
        }
    }
}

impl View for ServerPreference {
    type V = ServerPreferenceV;

    open spec fn view(&self) -> ServerPreferenceV {
        ServerPreferenceV { name: self.name@, value: self.value@ }
    }
}

impl View for PluginPreference {
    type V = PluginPreferenceV;

    open spec fn view(&self) -> PluginPreferenceV {
        PluginPreferenceV {
            plugin_name: self.plugin_name@,
            plugin_id: self.plugin_id,
            full_name: self.full_name@,
            preference_name: self.preference_name@,
            preference_type: self.preference_type@,
            preference_values: self.preference_values@,
            selected_value: self.selected_value@,
        }
    }
}

impl View for FamilySelection {
    type V = FamilySelectionV;

    open spec fn view(&self) -> FamilySelectionV {
        FamilySelectionV { family_items: self.family_items@.map_values(|f: FamilyItem| f@) }
    }
}

impl View for IndividualPluginSelection {
    type V = IndividualPluginSelectionV;

    open spec fn view(&self) -> IndividualPluginSelectionV {
        IndividualPluginSelectionV {
            plugin_items: self.plugin_items@.map_values(|p: PluginItem| p@),
        }
    }
}

impl View for FamilyItem {
    type V = FamilyItemV;

    open spec fn view(&self) -> FamilyItemV {
        FamilyItemV { family_name: self.family_name@, status: self.status@ }
    }
}

impl View for PluginItem {
    type V = PluginItemV;

    open spec fn view(&self) -> PluginItemV {
        PluginItemV {
            plugin_id: self.plugin_id,
            plugin_name: self.plugin_name@,
            family: self.family@,
            status: self.status@,
        }
    }
}

} // verus!
