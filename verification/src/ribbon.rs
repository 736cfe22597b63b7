//! The ribbon at the top of the page: the actions of the START tab or of
//! the EXPORT tab, each a button with its icon.

use vstd::prelude::*;
use crate::text::{push_str, string_from_chars};
use crate::ui::{Tool, normalize_for_js, spec_normalize_for_js};

verus! {

/// The icons of the ribbon's buttons, each as base64 PNG data.
pub struct RibbonIcons {
    pub open: String,
    pub neu: String,
    pub back: String,
    pub forward: String,
    pub xml: String,
    pub save: String,
    pub settings: String,
    pub help: String,
    pub info: String,
    pub house: String,
    pub transfer: String,
    pub geograf: String,
    pub log: String,
    pub georg: String,
    pub david: String,
    pub broom: String,
}

/// The marking of a tool's button while the tool is in use.
pub open spec fn active_style(tool: Option<Tool>, t: Tool) -> Seq<char> {
    if tool == Some(t) {
        "background:red !important;color:white !important;"@
    } else {
        ""@
    }
}

fn push_active(v: &mut Vec<char>, tool: Option<Tool>, gebaeude: bool)
    ensures
        final(v)@ == old(v)@ + active_style(
            tool,
            if gebaeude {
                Tool::GebaeudeLoeschen
            } else {
                Tool::NutzungEinzeichnen
            },
        ),
{
    let on = match tool {
        Some(Tool::GebaeudeLoeschen) => gebaeude,
        Some(Tool::NutzungEinzeichnen) => !gebaeude,
        _ => false,
    };
    if on {
        push_str(v, "background:red !important;color:white !important;");
    } else {
        push_str(v, "");
    }
}

/// The `projekt_oeffnen` button.
pub open spec fn section_projekt_oeffnen(icons: RibbonIcons, tool: Option<Tool>) -> Seq<char> {
    "
        <div class='__application-ribbon-section-content'>
            <label onmouseup='tab_functions.load_project(event)' class='__application-ribbon-action-vertical-large'>
                <div class='icon-wrapper'>
                    <img class='icon' src='data:image/png;base64,"@
        + icons.open@
        + "'>
                </div>
                <div>
                    <p>Projekt</p>
                    <p>laden</p>
                </div>
            </label>
        </div>
        "@
}

fn push_projekt_oeffnen(v: &mut Vec<char>, icons: &RibbonIcons, tool: Option<Tool>)
    ensures
        final(v)@ == old(v)@ + section_projekt_oeffnen(*icons, tool),
{
    let ghost v0 = v@;
    push_str(v, "
        <div class='__application-ribbon-section-content'>
            <label onmouseup='tab_functions.load_project(event)' class='__application-ribbon-action-vertical-large'>
                <div class='icon-wrapper'>
                    <img class='icon' src='data:image/png;base64,");
    push_str(v, icons.open.as_str());
    push_str(v, "'>
                </div>
                <div>
                    <p>Projekt</p>
                    <p>laden</p>
                </div>
            </label>
        </div>
        ");
    assert(v@ =~= v0 + section_projekt_oeffnen(*icons, tool));
}

/// The `neues_projekt` button.
pub open spec fn section_neues_projekt(icons: RibbonIcons, tool: Option<Tool>) -> Seq<char> {
    "
        <div class='__application-ribbon-section-content'>
                <label onmouseup='tab_functions.create_project(event)' class='__application-ribbon-action-vertical-large'>
                    <div class='icon-wrapper'>
                        <img class='icon' src='data:image/png;base64,"@
        + icons.neu@
        + "'>
                    </div>
                    <div>
                        <p>Projekt</p>
                        <p>aus CSV</p>
                    </div>
                </label>
            </div>
        "@
}

fn push_neues_projekt(v: &mut Vec<char>, icons: &RibbonIcons, tool: Option<Tool>)
    ensures
        final(v)@ == old(v)@ + section_neues_projekt(*icons, tool),
{
    let ghost v0 = v@;
    push_str(v, "
        <div class='__application-ribbon-section-content'>
                <label onmouseup='tab_functions.create_project(event)' class='__application-ribbon-action-vertical-large'>
                    <div class='icon-wrapper'>
                        <img class='icon' src='data:image/png;base64,");
    push_str(v, icons.neu.as_str());
    push_str(v, "'>
                    </div>
                    <div>
                        <p>Projekt</p>
                        <p>aus CSV</p>
                    </div>
                </label>
            </div>
        ");
    assert(v@ =~= v0 + section_neues_projekt(*icons, tool));
}

/// The `zurueck` button.
pub open spec fn section_zurueck(icons: RibbonIcons, tool: Option<Tool>) -> Seq<char> {
    "
        <div class='__application-ribbon-section-content'>
            <label onmouseup='tab_functions.undo(event)' class='__application-ribbon-action-vertical-large'>
                <div class='icon-wrapper'>
                    <img class='icon ' src='data:image/png;base64,"@
        + icons.back@
        + "'>
                </div>
                <div>
                    <p>Zurück</p>
                    <p>&nbsp;</p>
                </div>
            </label>
        </div>
        "@
}

fn push_zurueck(v: &mut Vec<char>, icons: &RibbonIcons, tool: Option<Tool>)
    ensures
        final(v)@ == old(v)@ + section_zurueck(*icons, tool),
{
    let ghost v0 = v@;
    push_str(v, "
        <div class='__application-ribbon-section-content'>
            <label onmouseup='tab_functions.undo(event)' class='__application-ribbon-action-vertical-large'>
                <div class='icon-wrapper'>
                    <img class='icon ' src='data:image/png;base64,");
    push_str(v, icons.back.as_str());
    push_str(v, "'>
                </div>
                <div>
                    <p>Zurück</p>
                    <p>&nbsp;</p>
                </div>
            </label>
        </div>
        ");
    assert(v@ =~= v0 + section_zurueck(*icons, tool));
}

/// The `vorwaerts` button.
pub open spec fn section_vorwaerts(icons: RibbonIcons, tool: Option<Tool>) -> Seq<char> {
    "
        <div class='__application-ribbon-section-content'>
            <label onmouseup='tab_functions.redo(event)' class='__application-ribbon-action-vertical-large'>
                <div class='icon-wrapper'>
                    <img class='icon ' src='data:image/png;base64,"@
        + icons.forward@
        + "'>
                </div>
                <div>
                    <p>Vorwärts</p>
                    <p>&nbsp;</p>
                </div>
            </label>
        </div>
        "@
}

fn push_vorwaerts(v: &mut Vec<char>, icons: &RibbonIcons, tool: Option<Tool>)
    ensures
        final(v)@ == old(v)@ + section_vorwaerts(*icons, tool),
{
    let ghost v0 = v@;
    push_str(v, "
        <div class='__application-ribbon-section-content'>
            <label onmouseup='tab_functions.redo(event)' class='__application-ribbon-action-vertical-large'>
                <div class='icon-wrapper'>
                    <img class='icon ' src='data:image/png;base64,");
    push_str(v, icons.forward.as_str());
    push_str(v, "'>
                </div>
                <div>
                    <p>Vorwärts</p>
                    <p>&nbsp;</p>
                </div>
            </label>
        </div>
        ");
    assert(v@ =~= v0 + section_vorwaerts(*icons, tool));
}

/// The `daten_importieren` button.
pub open spec fn section_daten_importieren(icons: RibbonIcons, tool: Option<Tool>) -> Seq<char> {
    "
        <div class='__application-ribbon-section-content'>
            <label onmouseup='tab_functions.import_data(event)' class='__application-ribbon-action-vertical-large'>
                <div class='icon-wrapper'>
                    <img class='icon' src='data:image/png;base64,"@
        + icons.xml@
        + "'>
                </div>
                <div>
                    <p>NAS-Daten</p>
                    <p>importieren</p>
                </div>
            </label>
        </div>   
        "@
}

fn push_daten_importieren(v: &mut Vec<char>, icons: &RibbonIcons, tool: Option<Tool>)
    ensures
        final(v)@ == old(v)@ + section_daten_importieren(*icons, tool),
{
    let ghost v0 = v@;
    push_str(v, "
        <div class='__application-ribbon-section-content'>
            <label onmouseup='tab_functions.import_data(event)' class='__application-ribbon-action-vertical-large'>
                <div class='icon-wrapper'>
                    <img class='icon' src='data:image/png;base64,");
    push_str(v, icons.xml.as_str());
    push_str(v, "'>
                </div>
                <div>
                    <p>NAS-Daten</p>
                    <p>importieren</p>
                </div>
            </label>
        </div>   
        ");
    assert(v@ =~= v0 + section_daten_importieren(*icons, tool));
}

/// The `projekt_speichern` button.
pub open spec fn section_projekt_speichern(icons: RibbonIcons, tool: Option<Tool>) -> Seq<char> {
    "
        <div class='__application-ribbon-section-content'>
            <label onmouseup='tab_functions.save_project(event)' class='__application-ribbon-action-vertical-large'>
                <div class='icon-wrapper'>
                    <img class='icon ' src='data:image/png;base64,"@
        + icons.save@
        + "'>
                </div>
                <div>
                    <p>Änderungen</p>
                    <p>speichern</p>
                </div>
            </label>
        </div>
        "@
}

fn push_projekt_speichern(v: &mut Vec<char>, icons: &RibbonIcons, tool: Option<Tool>)
    ensures
        final(v)@ == old(v)@ + section_projekt_speichern(*icons, tool),
{
    let ghost v0 = v@;
    push_str(v, "
        <div class='__application-ribbon-section-content'>
            <label onmouseup='tab_functions.save_project(event)' class='__application-ribbon-action-vertical-large'>
                <div class='icon-wrapper'>
                    <img class='icon ' src='data:image/png;base64,");
    push_str(v, icons.save.as_str());
    push_str(v, "'>
                </div>
                <div>
                    <p>Änderungen</p>
                    <p>speichern</p>
                </div>
            </label>
        </div>
        ");
    assert(v@ =~= v0 + section_projekt_speichern(*icons, tool));
}

/// The `einstellungen` button.
pub open spec fn section_einstellungen(icons: RibbonIcons, tool: Option<Tool>) -> Seq<char> {
    "
        <div class='__application-ribbon-section-content'>
            <label onmouseup='tab_functions.open_configuration(event);' class='__application-ribbon-action-vertical-large'>
                <div class='icon-wrapper'>
                    <img class='icon' src='data:image/png;base64,"@
        + icons.settings@
        + "'>
                </div>
                <div>
                    <p>Einstellungen</p>
                    <p>bearbeiten</p>
                </div>
            </label>
        </div>
        "@
}

fn push_einstellungen(v: &mut Vec<char>, icons: &RibbonIcons, tool: Option<Tool>)
    ensures
        final(v)@ == old(v)@ + section_einstellungen(*icons, tool),
{
    let ghost v0 = v@;
    push_str(v, "
        <div class='__application-ribbon-section-content'>
            <label onmouseup='tab_functions.open_configuration(event);' class='__application-ribbon-action-vertical-large'>
                <div class='icon-wrapper'>
                    <img class='icon' src='data:image/png;base64,");
    push_str(v, icons.settings.as_str());
    push_str(v, "'>
                </div>
                <div>
                    <p>Einstellungen</p>
                    <p>bearbeiten</p>
                </div>
            </label>
        </div>
        ");
    assert(v@ =~= v0 + section_einstellungen(*icons, tool));
}

/// The `hilfe` button.
pub open spec fn section_hilfe(icons: RibbonIcons, tool: Option<Tool>) -> Seq<char> {
    "
        <div class='__application-ribbon-section-content'>
            <label onmouseup='tab_functions.open_help(event);' class='__application-ribbon-action-vertical-large'>
                <div class='icon-wrapper'>
                    <img class='icon' src='data:image/png;base64,"@
        + icons.help@
        + "'>
                </div>
                <div>
                    <p>Hilfe</p>
                    <p>&nbsp;</p>
                </div>
            </label>
        </div>    
        "@
}

fn push_hilfe(v: &mut Vec<char>, icons: &RibbonIcons, tool: Option<Tool>)
    ensures
        final(v)@ == old(v)@ + section_hilfe(*icons, tool),
{
    let ghost v0 = v@;
    push_str(v, "
        <div class='__application-ribbon-section-content'>
            <label onmouseup='tab_functions.open_help(event);' class='__application-ribbon-action-vertical-large'>
                <div class='icon-wrapper'>
                    <img class='icon' src='data:image/png;base64,");
    push_str(v, icons.help.as_str());
    push_str(v, "'>
                </div>
                <div>
                    <p>Hilfe</p>
                    <p>&nbsp;</p>
                </div>
            </label>
        </div>    
        ");
    assert(v@ =~= v0 + section_hilfe(*icons, tool));
}

/// The `info` button.
pub open spec fn section_info(icons: RibbonIcons, tool: Option<Tool>) -> Seq<char> {
    "
        <div class='__application-ribbon-section-content'>
            <label onmouseup='tab_functions.open_info(event);' class='__application-ribbon-action-vertical-large'>
                <div class='icon-wrapper'>
                    <img class='icon' src='data:image/png;base64,"@
        + icons.info@
        + "'>
                </div>
                <div>
                    <p>Info</p>
                    <p>&nbsp;</p>
                </div>
            </label>
        </div>
        "@
}

fn push_info(v: &mut Vec<char>, icons: &RibbonIcons, tool: Option<Tool>)
    ensures
        final(v)@ == old(v)@ + section_info(*icons, tool),
{
    let ghost v0 = v@;
    push_str(v, "
        <div class='__application-ribbon-section-content'>
            <label onmouseup='tab_functions.open_info(event);' class='__application-ribbon-action-vertical-large'>
                <div class='icon-wrapper'>
                    <img class='icon' src='data:image/png;base64,");
    push_str(v, icons.info.as_str());
    push_str(v, "'>
                </div>
                <div>
                    <p>Info</p>
                    <p>&nbsp;</p>
                </div>
            </label>
        </div>
        ");
    assert(v@ =~= v0 + section_info(*icons, tool));
}

/// The `gebaeude_loeschen` button.
pub open spec fn section_gebaeude_loeschen(icons: RibbonIcons, tool: Option<Tool>) -> Seq<char> {
    "
            <div class='__application-ribbon-section-content'>
                <label onmouseup='tab_functions.gebaeude_loeschen(event)' class='__application-ribbon-action-vertical-large' style='"@
        + active_style(tool, Tool::GebaeudeLoeschen)
        + "'>
                    <div class='icon-wrapper'>
                        <img class='icon ' src='data:image/png;base64,"@
        + icons.house@
        + "'>
                    </div>
                    <div>
                        <p>Gebäude</p>
                        <p>löschen</p>
                    </div>
                </label>
            </div>
        "@
}

fn push_gebaeude_loeschen(v: &mut Vec<char>, icons: &RibbonIcons, tool: Option<Tool>)
    ensures
        final(v)@ == old(v)@ + section_gebaeude_loeschen(*icons, tool),
{
    let ghost v0 = v@;
    push_str(v, "
            <div class='__application-ribbon-section-content'>
                <label onmouseup='tab_functions.gebaeude_loeschen(event)' class='__application-ribbon-action-vertical-large' style='");
    push_active(v, tool, true);
    push_str(v, "'>
                    <div class='icon-wrapper'>
                        <img class='icon ' src='data:image/png;base64,");
    push_str(v, icons.house.as_str());
    push_str(v, "'>
                    </div>
                    <div>
                        <p>Gebäude</p>
                        <p>löschen</p>
                    </div>
                </label>
            </div>
        ");
    assert(v@ =~= v0 + section_gebaeude_loeschen(*icons, tool));
}

/// The `nutzung_einzeichnen` button.
pub open spec fn section_nutzung_einzeichnen(icons: RibbonIcons, tool: Option<Tool>) -> Seq<char> {
    "
            <div class='__application-ribbon-section-content'>
                <label onmouseup='tab_functions.nutzung_einzeichnen(event)' class='__application-ribbon-action-vertical-large' style='"@
        + active_style(tool, Tool::NutzungEinzeichnen)
        + "'>
                    <div class='icon-wrapper'>
                        <img class='icon ' src='data:image/png;base64,"@
        + icons.transfer@
        + "'>
                    </div>
                    <div>
                        <p>Nutzung</p>
                        <p>einzeichnen</p>
                    </div>
                </label>
            </div>
        "@
}

fn push_nutzung_einzeichnen(v: &mut Vec<char>, icons: &RibbonIcons, tool: Option<Tool>)
    ensures
        final(v)@ == old(v)@ + section_nutzung_einzeichnen(*icons, tool),
{
    let ghost v0 = v@;
    push_str(v, "
            <div class='__application-ribbon-section-content'>
                <label onmouseup='tab_functions.nutzung_einzeichnen(event)' class='__application-ribbon-action-vertical-large' style='");
    push_active(v, tool, false);
    push_str(v, "'>
                    <div class='icon-wrapper'>
                        <img class='icon ' src='data:image/png;base64,");
    push_str(v, icons.transfer.as_str());
    push_str(v, "'>
                    </div>
                    <div>
                        <p>Nutzung</p>
                        <p>einzeichnen</p>
                    </div>
                </label>
            </div>
        ");
    assert(v@ =~= v0 + section_nutzung_einzeichnen(*icons, tool));
}

/// The `export_geograf` button.
pub open spec fn section_export_geograf(icons: RibbonIcons, tool: Option<Tool>) -> Seq<char> {
    "
        <div class='__application-ribbon-section-content'>
            <label onmouseup='tab_functions.export_geograf(event)' class='__application-ribbon-action-vertical-large'>
                <div class='icon-wrapper'>
                    <img class='icon ' src='data:image/png;base64,"@
        + icons.geograf@
        + "'>
                </div>
                <div>
                    <p>Export</p>
                    <p>GEOgraf</p>
                </div>
            </label>
        </div>   
        "@
}

fn push_export_geograf(v: &mut Vec<char>, icons: &RibbonIcons, tool: Option<Tool>)
    ensures
        final(v)@ == old(v)@ + section_export_geograf(*icons, tool),
{
    let ghost v0 = v@;
    push_str(v, "
        <div class='__application-ribbon-section-content'>
            <label onmouseup='tab_functions.export_geograf(event)' class='__application-ribbon-action-vertical-large'>
                <div class='icon-wrapper'>
                    <img class='icon ' src='data:image/png;base64,");
    push_str(v, icons.geograf.as_str());
    push_str(v, "'>
                </div>
                <div>
                    <p>Export</p>
                    <p>GEOgraf</p>
                </div>
            </label>
        </div>   
        ");
    assert(v@ =~= v0 + section_export_geograf(*icons, tool));
}

/// The `export_log` button.
pub open spec fn section_export_log(icons: RibbonIcons, tool: Option<Tool>) -> Seq<char> {
    "
        <div class='__application-ribbon-section-content'>
            <label onmouseup='exportLog();' class='__application-ribbon-action-vertical-large'>
                <div class='icon-wrapper'>
                    <img class='icon ' src='data:image/png;base64,"@
        + icons.log@
        + "'>
                </div>
                <div>
                    <p>Log-Datei</p>
                    <p>speichern</p>
                </div>
            </label>
        </div>   
        "@
}

fn push_export_log(v: &mut Vec<char>, icons: &RibbonIcons, tool: Option<Tool>)
    ensures
        final(v)@ == old(v)@ + section_export_log(*icons, tool),
{
    let ghost v0 = v@;
    push_str(v, "
        <div class='__application-ribbon-section-content'>
            <label onmouseup='exportLog();' class='__application-ribbon-action-vertical-large'>
                <div class='icon-wrapper'>
                    <img class='icon ' src='data:image/png;base64,");
    push_str(v, icons.log.as_str());
    push_str(v, "'>
                </div>
                <div>
                    <p>Log-Datei</p>
                    <p>speichern</p>
                </div>
            </label>
        </div>   
        ");
    assert(v@ =~= v0 + section_export_log(*icons, tool));
}

/// The `export_alle_flurstuecke` button.
pub open spec fn section_export_alle_flurstuecke(icons: RibbonIcons, tool: Option<Tool>) -> Seq<char> {
    "
            <div class='__application-ribbon-section-content'>
                <label onmouseup='tab_functions.export_alle_flst(event)' class='__application-ribbon-action-vertical-large'>
                    <div class='icon-wrapper'>
                        <img class='icon ' src='data:image/png;base64,"@
        + icons.georg@
        + "'>
                    </div>
                    <div>
                        <p>Export</p>
                        <p>Georg</p>
                    </div>
                </label>
            </div>
        "@
}

fn push_export_alle_flurstuecke(v: &mut Vec<char>, icons: &RibbonIcons, tool: Option<Tool>)
    ensures
        final(v)@ == old(v)@ + section_export_alle_flurstuecke(*icons, tool),
{
    let ghost v0 = v@;
    push_str(v, "
            <div class='__application-ribbon-section-content'>
                <label onmouseup='tab_functions.export_alle_flst(event)' class='__application-ribbon-action-vertical-large'>
                    <div class='icon-wrapper'>
                        <img class='icon ' src='data:image/png;base64,");
    push_str(v, icons.georg.as_str());
    push_str(v, "'>
                    </div>
                    <div>
                        <p>Export</p>
                        <p>Georg</p>
                    </div>
                </label>
            </div>
        ");
    assert(v@ =~= v0 + section_export_alle_flurstuecke(*icons, tool));
}

/// The `export_david` button.
pub open spec fn section_export_david(icons: RibbonIcons, tool: Option<Tool>) -> Seq<char> {
    "
            <div class='__application-ribbon-section-content'>
                <label onmouseup='tab_functions.export_david(event)' class='__application-ribbon-action-vertical-large'>
                    <div class='icon-wrapper'>
                        <img class='icon ' src='data:image/png;base64,"@
        + icons.david@
        + "'>
                    </div>
                    <div>
                        <p>Export</p>
                        <p>DAVID</p>
                    </div>
                </label>
            </div>
        "@
}

fn push_export_david(v: &mut Vec<char>, icons: &RibbonIcons, tool: Option<Tool>)
    ensures
        final(v)@ == old(v)@ + section_export_david(*icons, tool),
{
    let ghost v0 = v@;
    push_str(v, "
            <div class='__application-ribbon-section-content'>
                <label onmouseup='tab_functions.export_david(event)' class='__application-ribbon-action-vertical-large'>
                    <div class='icon-wrapper'>
                        <img class='icon ' src='data:image/png;base64,");
    push_str(v, icons.david.as_str());
    push_str(v, "'>
                    </div>
                    <div>
                        <p>Export</p>
                        <p>DAVID</p>
                    </div>
                </label>
            </div>
        ");
    assert(v@ =~= v0 + section_export_david(*icons, tool));
}

/// The `export_nas_xml` button.
pub open spec fn section_export_nas_xml(icons: RibbonIcons, tool: Option<Tool>) -> Seq<char> {
    "
            <div class='__application-ribbon-section-content'>
                <label onmouseup='tab_functions.export_nas_xml(event)' class='__application-ribbon-action-vertical-large'>
                    <div class='icon-wrapper'>
                        <img class='icon ' src='data:image/png;base64,"@
        + icons.xml@
        + "'>
                    </div>
                    <div>
                        <p>Export</p>
                        <p>NAS-XML</p>
                    </div>
                </label>
            </div>
        "@
}

fn push_export_nas_xml(v: &mut Vec<char>, icons: &RibbonIcons, tool: Option<Tool>)
    ensures
        final(v)@ == old(v)@ + section_export_nas_xml(*icons, tool),
{
    let ghost v0 = v@;
    push_str(v, "
            <div class='__application-ribbon-section-content'>
                <label onmouseup='tab_functions.export_nas_xml(event)' class='__application-ribbon-action-vertical-large'>
                    <div class='icon-wrapper'>
                        <img class='icon ' src='data:image/png;base64,");
    push_str(v, icons.xml.as_str());
    push_str(v, "'>
                    </div>
                    <div>
                        <p>Export</p>
                        <p>NAS-XML</p>
                    </div>
                </label>
            </div>
        ");
    assert(v@ =~= v0 + section_export_nas_xml(*icons, tool));
}

/// The buttons of the clean-up stages.
pub open spec fn section_clean_stages(icons: RibbonIcons, tool: Option<Tool>) -> Seq<char> {
    "

                <div class='__application-ribbon-section-content __mini_content'>
                <label onmouseup='cleanStage(1, event);' class='__application-ribbon-action-vertical-large' style='margin-top:0px;'>
                    <div class='icon-wrapper'>
                        <img class='icon ' src='data:image/png;base64,"@
        + icons.broom@
        + "'>
                    </div>
                    <div>
                        <p>[1] Punkte auf Änd. ziehen</p>
                    </div>
                </label>

                <label onmouseup='cleanStage(2, event);' class='__application-ribbon-action-vertical-large'>
                    <div class='icon-wrapper'>
                        <img class='icon ' src='data:image/png;base64,"@
        + icons.broom@
        + "'>
                    </div>
                    <div>
                        <p>[2] Punkte einf. von nahen Änd.</p>
                    </div>
                </label>

                <label onmouseup='cleanStage(3, event);' class='__application-ribbon-action-vertical-large'>
                    <div class='icon-wrapper'>
                        <img class='icon ' src='data:image/png;base64,"@
        + icons.broom@
        + "'>
                    </div>
                    <div>
                        <p>[3] Punkte auf Flst. ziehen</p>
                    </div>
                </label>
            </div>

            <div class='__application-ribbon-section-content __mini_content'>
                <label onmouseup='cleanStage(4, event);' class='__application-ribbon-action-vertical-large' style='margin-top:0px;'>
                    <div class='icon-wrapper'>
                        <img class='icon ' src='data:image/png;base64,"@
        + icons.broom@
        + "'>
                    </div>
                    <div>
                        <p>[4] Punkte einf. von nahen Flst.</p>
                    </div>
                </label>

                <label onmouseup='cleanStage(25, event);' class='__application-ribbon-action-vertical-large'>
                    <div class='icon-wrapper'>
                        <img class='icon ' src='data:image/png;base64,"@
        + icons.broom@
        + "'>
                    </div>
                    <div>
                        <p>[5] Änd. verbinden nach Typ</p>
                    </div>
                </label>
                

                <label onmouseup='cleanStage(5, event);' class='__application-ribbon-action-vertical-large'>
                    <div class='icon-wrapper'>
                        <img class='icon ' src='data:image/png;base64,"@
        + icons.broom@
        + "'>
                    </div>
                    <div>
                        <p>[6] Überlappende Änd. subtrah.</p>
                    </div>
                </label>
            </div>

            <div class='__application-ribbon-section-content'>
                <label onmouseup='cleanStage(7, event)' class='__application-ribbon-action-vertical-large'>
                    <div class='icon-wrapper'>
                        <img class='icon ' src='data:image/png;base64,"@
        + icons.broom@
        + "'>
                    </div>
                    <div>
                        <p>Änderungen</p>
                        <p>zu Splitfl.</p>
                    </div>
                </label>
            </div>

            <div class='__application-ribbon-section-content'>
                <label onmouseup='cleanStage(8, event)' class='__application-ribbon-action-vertical-large'>
                    <div class='icon-wrapper'>
                        <img class='icon ' src='data:image/png;base64,"@
        + icons.broom@
        + "'>
                    </div>
                    <div>
                        <p>Änderungen</p>
                        <p>zu DAVID</p>
                    </div>
                </label>
            </div>
        "@
}

fn push_clean_stages(v: &mut Vec<char>, icons: &RibbonIcons, tool: Option<Tool>)
    ensures
        final(v)@ == old(v)@ + section_clean_stages(*icons, tool),
{
    let ghost v0 = v@;
    push_str(v, "

                <div class='__application-ribbon-section-content __mini_content'>
                <label onmouseup='cleanStage(1, event);' class='__application-ribbon-action-vertical-large' style='margin-top:0px;'>
                    <div class='icon-wrapper'>
                        <img class='icon ' src='data:image/png;base64,");
    push_str(v, icons.broom.as_str());
    push_str(v, "'>
                    </div>
                    <div>
                        <p>[1] Punkte auf Änd. ziehen</p>
                    </div>
                </label>

                <label onmouseup='cleanStage(2, event);' class='__application-ribbon-action-vertical-large'>
                    <div class='icon-wrapper'>
                        <img class='icon ' src='data:image/png;base64,");
    push_str(v, icons.broom.as_str());
    push_str(v, "'>
                    </div>
                    <div>
                        <p>[2] Punkte einf. von nahen Änd.</p>
                    </div>
                </label>

                <label onmouseup='cleanStage(3, event);' class='__application-ribbon-action-vertical-large'>
                    <div class='icon-wrapper'>
                        <img class='icon ' src='data:image/png;base64,");
    push_str(v, icons.broom.as_str());
    push_str(v, "'>
                    </div>
                    <div>
                        <p>[3] Punkte auf Flst. ziehen</p>
                    </div>
                </label>
            </div>

            <div class='__application-ribbon-section-content __mini_content'>
                <label onmouseup='cleanStage(4, event);' class='__application-ribbon-action-vertical-large' style='margin-top:0px;'>
                    <div class='icon-wrapper'>
                        <img class='icon ' src='data:image/png;base64,");
    push_str(v, icons.broom.as_str());
    push_str(v, "'>
                    </div>
                    <div>
                        <p>[4] Punkte einf. von nahen Flst.</p>
                    </div>
                </label>

                <label onmouseup='cleanStage(25, event);' class='__application-ribbon-action-vertical-large'>
                    <div class='icon-wrapper'>
                        <img class='icon ' src='data:image/png;base64,");
    push_str(v, icons.broom.as_str());
    push_str(v, "'>
                    </div>
                    <div>
                        <p>[5] Änd. verbinden nach Typ</p>
                    </div>
                </label>
                

                <label onmouseup='cleanStage(5, event);' class='__application-ribbon-action-vertical-large'>
                    <div class='icon-wrapper'>
                        <img class='icon ' src='data:image/png;base64,");
    push_str(v, icons.broom.as_str());
    push_str(v, "'>
                    </div>
                    <div>
                        <p>[6] Überlappende Änd. subtrah.</p>
                    </div>
                </label>
            </div>

            <div class='__application-ribbon-section-content'>
                <label onmouseup='cleanStage(7, event)' class='__application-ribbon-action-vertical-large'>
                    <div class='icon-wrapper'>
                        <img class='icon ' src='data:image/png;base64,");
    push_str(v, icons.broom.as_str());
    push_str(v, "'>
                    </div>
                    <div>
                        <p>Änderungen</p>
                        <p>zu Splitfl.</p>
                    </div>
                </label>
            </div>

            <div class='__application-ribbon-section-content'>
                <label onmouseup='cleanStage(8, event)' class='__application-ribbon-action-vertical-large'>
                    <div class='icon-wrapper'>
                        <img class='icon ' src='data:image/png;base64,");
    push_str(v, icons.broom.as_str());
    push_str(v, "'>
                    </div>
                    <div>
                        <p>Änderungen</p>
                        <p>zu DAVID</p>
                    </div>
                </label>
            </div>
        ");
    assert(v@ =~= v0 + section_clean_stages(*icons, tool));
}

/// The ribbon of the START tab.
pub open spec fn ribbon_start(icons: RibbonIcons, tool: Option<Tool>) -> Seq<char> {
    "
            <div class='__application-ribbon-header'>
                <p onmouseup='selectTab(0);' class='active'>START</p>
                <p onmouseup='selectTab(2);'>EXPORT</p>
                <div style='flex-grow:1;'></div>
                <input type='search' placeholder='Nutzungsarten durchsuchen...' style='margin-right:5px;margin-top:5px;min-width:300px;border:1px solid gray;max-height:25px;padding:5px;' oninput='searchNA(event);' onchange='searchNA(event);' onfocusout='closePopOver();'></input>
            </div>
            <div class='__application-ribbon-body'>
                <div class='__application-ribbon-section 1'>
                    <div style='display:flex;flex-direction:row;'>
                        
                        "@
        + section_projekt_oeffnen(icons, tool)
        + "

                        "@
        + section_neues_projekt(icons, tool)
        + "
                        
                    </div>
                </div>
            
                <div class='__application-ribbon-section 2'>
                    <div style='display:flex;flex-direction:row;'>

                        "@
        + section_zurueck(icons, tool)
        + "
                        
                        "@
        + section_vorwaerts(icons, tool)
        + "
                    </div>
                </div>
                
                <div class='__application-ribbon-section 5'>
                    <div style='display:flex;flex-direction:row;'>
                        "@
        + section_daten_importieren(icons, tool)
        + "
                        "@
        + section_export_alle_flurstuecke(icons, tool)
        + "
                    </div>
                </div>

                <div class='__application-ribbon-section 2'>
                    <div style='display:flex;flex-direction:row;'>
                        "@
        + section_gebaeude_loeschen(icons, tool)
        + "
                        "@
        + section_nutzung_einzeichnen(icons, tool)
        + "
                    </div>
                </div>

                <div class='__application-ribbon-section 5'>
                    <div style='display:flex;flex-direction:row;'>
                        "@
        + section_projekt_speichern(icons, tool)
        + "
                    </div>
                </div>


                <div class='__application-ribbon-section 5'>
                    <div style='display:flex;flex-direction:row;'>
                        "@
        + section_clean_stages(icons, tool)
        + "
                    </div>
                </div>

                <div style='display:flex;flex-grow:1;'></div>
                
                <div class='__application-ribbon-section 6'>
                    <div style='display:flex;flex-direction:row;'>

                        "@
        + section_einstellungen(icons, tool)
        + "

                        "@
        + section_hilfe(icons, tool)
        + "

                        "@
        + section_info(icons, tool)
        + "

                    </div>
                </div>
            </div>
            "@
}

fn push_ribbon_start(v: &mut Vec<char>, icons: &RibbonIcons, tool: Option<Tool>)
    ensures
        final(v)@ == old(v)@ + ribbon_start(*icons, tool),
{
    let ghost v0 = v@;
    push_str(v, "
            <div class='__application-ribbon-header'>
                <p onmouseup='selectTab(0);' class='active'>START</p>
                <p onmouseup='selectTab(2);'>EXPORT</p>
                <div style='flex-grow:1;'></div>
                <input type='search' placeholder='Nutzungsarten durchsuchen...' style='margin-right:5px;margin-top:5px;min-width:300px;border:1px solid gray;max-height:25px;padding:5px;' oninput='searchNA(event);' onchange='searchNA(event);' onfocusout='closePopOver();'></input>
            </div>
            <div class='__application-ribbon-body'>
                <div class='__application-ribbon-section 1'>
                    <div style='display:flex;flex-direction:row;'>
                        
                        ");
    push_projekt_oeffnen(v, icons, tool);
    push_str(v, "

                        ");
    push_neues_projekt(v, icons, tool);
    push_str(v, "
                        
                    </div>
                </div>
            
                <div class='__application-ribbon-section 2'>
                    <div style='display:flex;flex-direction:row;'>

                        ");
    push_zurueck(v, icons, tool);
    push_str(v, "
                        
                        ");
    push_vorwaerts(v, icons, tool);
    push_str(v, "
                    </div>
                </div>
                
                <div class='__application-ribbon-section 5'>
                    <div style='display:flex;flex-direction:row;'>
                        ");
    push_daten_importieren(v, icons, tool);
    push_str(v, "
                        ");
    push_export_alle_flurstuecke(v, icons, tool);
    push_str(v, "
                    </div>
                </div>

                <div class='__application-ribbon-section 2'>
                    <div style='display:flex;flex-direction:row;'>
                        ");
    push_gebaeude_loeschen(v, icons, tool);
    push_str(v, "
                        ");
    push_nutzung_einzeichnen(v, icons, tool);
    push_str(v, "
                    </div>
                </div>

                <div class='__application-ribbon-section 5'>
                    <div style='display:flex;flex-direction:row;'>
                        ");
    push_projekt_speichern(v, icons, tool);
    push_str(v, "
                    </div>
                </div>


                <div class='__application-ribbon-section 5'>
                    <div style='display:flex;flex-direction:row;'>
                        ");
    push_clean_stages(v, icons, tool);
    push_str(v, "
                    </div>
                </div>

                <div style='display:flex;flex-grow:1;'></div>
                
                <div class='__application-ribbon-section 6'>
                    <div style='display:flex;flex-direction:row;'>

                        ");
    push_einstellungen(v, icons, tool);
    push_str(v, "

                        ");
    push_hilfe(v, icons, tool);
    push_str(v, "

                        ");
    push_info(v, icons, tool);
    push_str(v, "

                    </div>
                </div>
            </div>
            ");
    assert(v@ =~= v0 + ribbon_start(*icons, tool));
}

/// The ribbon of the EXPORT tab.
pub open spec fn ribbon_export(icons: RibbonIcons, tool: Option<Tool>) -> Seq<char> {
    "
            <div class='__application-ribbon-header'>
                <p onmouseup='selectTab(0);'>START</p>
                <p onmouseup='selectTab(2);' class='active'>EXPORT</p>
                <div style='flex-grow:1;' ondblclick='tab_functions.export_uebersicht(event);'></div>
                <p id='export-status'></p>
                <input type='search' placeholder='Nutzungsarten durchsuchen...' style='margin-right:5px;margin-top:5px;min-width:300px;border:1px solid gray;max-height:25px;padding:5px;' oninput='searchNA(event);' onchange='searchNA(event);' onfocusout='closePopOver();'></input>
            </div>
            <div class='__application-ribbon-body'>

                <div class='__application-ribbon-section 2'>
                    <div style='display:flex;flex-direction:row;'>
                        "@
        + section_export_david(icons, tool)
        + "
                        "@
        + section_export_nas_xml(icons, tool)
        + "
                        "@
        + section_export_geograf(icons, tool)
        + "
                    </div>
                </div>

                <div class='__application-ribbon-section 2'>
                    <div style='display:flex;flex-direction:row;'>
                        "@
        + section_export_log(icons, tool)
        + "
                        "@
        + section_projekt_speichern(icons, tool)
        + "
                    </div>
                </div>

                <div style='display:flex;flex-grow:1;'></div>
                
                <div class='__application-ribbon-section 6'>
                    <div style='display:flex;flex-direction:row;'>

                        "@
        + section_einstellungen(icons, tool)
        + "

                        "@
        + section_hilfe(icons, tool)
        + "

                        "@
        + section_info(icons, tool)
        + "

                    </div>
                </div>
            </div>
        "@
}

fn push_ribbon_export(v: &mut Vec<char>, icons: &RibbonIcons, tool: Option<Tool>)
    ensures
        final(v)@ == old(v)@ + ribbon_export(*icons, tool),
{
    let ghost v0 = v@;
    push_str(v, "
            <div class='__application-ribbon-header'>
                <p onmouseup='selectTab(0);'>START</p>
                <p onmouseup='selectTab(2);' class='active'>EXPORT</p>
                <div style='flex-grow:1;' ondblclick='tab_functions.export_uebersicht(event);'></div>
                <p id='export-status'></p>
                <input type='search' placeholder='Nutzungsarten durchsuchen...' style='margin-right:5px;margin-top:5px;min-width:300px;border:1px solid gray;max-height:25px;padding:5px;' oninput='searchNA(event);' onchange='searchNA(event);' onfocusout='closePopOver();'></input>
            </div>
            <div class='__application-ribbon-body'>

                <div class='__application-ribbon-section 2'>
                    <div style='display:flex;flex-direction:row;'>
                        ");
    push_export_david(v, icons, tool);
    push_str(v, "
                        ");
    push_export_nas_xml(v, icons, tool);
    push_str(v, "
                        ");
    push_export_geograf(v, icons, tool);
    push_str(v, "
                    </div>
                </div>

                <div class='__application-ribbon-section 2'>
                    <div style='display:flex;flex-direction:row;'>
                        ");
    push_export_log(v, icons, tool);
    push_str(v, "
                        ");
    push_projekt_speichern(v, icons, tool);
    push_str(v, "
                    </div>
                </div>

                <div style='display:flex;flex-grow:1;'></div>
                
                <div class='__application-ribbon-section 6'>
                    <div style='display:flex;flex-direction:row;'>

                        ");
    push_einstellungen(v, icons, tool);
    push_str(v, "

                        ");
    push_hilfe(v, icons, tool);
    push_str(v, "

                        ");
    push_info(v, icons, tool);
    push_str(v, "

                    </div>
                </div>
            </div>
        ");
    assert(v@ =~= v0 + ribbon_export(*icons, tool));
}

/// The ribbon for the tab `tab` (the START tab where there is none) and
/// the tool in use, normalised for the page.
pub fn render_ribbon(tab: Option<usize>, tool: Option<Tool>, icons: &RibbonIcons) -> (r: String)
    ensures
        r@ == spec_normalize_for_js(
            if tab.unwrap_or(0) == 0 {
                ribbon_start(*icons, tool)
            } else {
                ribbon_export(*icons, tool)
            },
        ),
{
    let t = match tab {
        Some(t) => t,
        None => 0,
    };
    let mut v: Vec<char> = Vec::new();
    if t == 0 {
        push_ribbon_start(&mut v, icons, tool);
    } else {
        push_ribbon_export(&mut v, icons, tool);
    }
    assert(v@ =~= Seq::<char>::empty() + (if t == 0 {
        ribbon_start(*icons, tool)
    } else {
        ribbon_export(*icons, tool)
    }));
    normalize_for_js(string_from_chars(v.as_slice()))
}

} // verus!
