//! The whole page: the popover, the ribbon, and the main area with the
//! switch and the project's content (the parcels, the survey sheets) or the
//! list of changes.

use vstd::prelude::*;
use crate::text::{dec, push_all, push_str, string_from_chars, usize_to_chars};
use crate::ui::{
    GebaeudeLoeschen, PolyNeuInfo, lemma_csv_cards_empty_split, normalize_for_js, render_csv_editable,
    render_secondary_content, render_switch_content, spec_csv_cards, spec_normalize_for_js,
    spec_secondary_content, spec_switch_content,
};
use crate::pdf::{Konfiguration, ProjektInfo};
use crate::popover::{PopoverAssets, UiData, render_popover_content, spec_popover_content};
use crate::ribbon::{RibbonIcons, render_ribbon, ribbon_export, ribbon_start};
use crate::csv::{CsvDataType, spec_old_fallback};
use crate::sorted_map::SortedMap;
use crate::search::NutzungsArtMap;
use crate::nas::TaggedPolygon;
use crate::xml_templates::concat_all;
use crate::xlsx::{parse_key, spec_format_nice};

verus! {

/// A survey sheet as the project page lists it: its size and scale as the
/// decimal text that the page shows. (Its position, projection and area are
/// kept by the caller.)
#[derive(Debug)]
pub struct RissConfig {
    pub width_mm: String,
    pub height_mm: String,
    pub scale: String,
}

/// The changes as the page lists them. (The polygons of the new uses, in
/// floating point, are kept by the caller.)
#[derive(Debug)]
pub struct Aenderungen {
    pub gebaeude_loeschen: SortedMap<String, GebaeudeLoeschen>,
    pub na_definiert: SortedMap<String, String>,
    pub na_polygone_neu: SortedMap<String, PolyNeuInfo>,
}

/// The images and documents that the page embeds.
pub struct ScreenAssets {
    pub ribbon: RibbonIcons,
    pub popover: PopoverAssets,
    pub icon_lock: String,
    pub icon_unlock: String,
}

/// The survey sheets, numbered from 1 in key order.
pub open spec fn screen_riss_rows(risse: Seq<(Seq<char>, RissConfig)>) -> Seq<char> {
    concat_all(Seq::new(risse.len(), |i: int| screen_riss_row(dec((i + 1) as nat), risse[i].0, risse[i].1)))
}

/// A field of the project data.
pub open spec fn screen_config_field(name: Seq<char>, value: Seq<char>, id: Seq<char>) -> Seq<char> {
    "<div class='ri-config-field'>
            <label for='projekt-info-"@
        + id
        + "' style='bold'>"@
        + name
        + "</label>
            <input type='text' id='projekt-info-"@
        + id
        + "' oninput='projectInfoEdit(event);' onchange='projectInfoEdit(event);' data-id='"@
        + id
        + "' value='"@
        + value
        + "'>
        </div>"@
}

/// Part 1 of `screen_risse_ui`.
pub open spec fn screen_risse_ui_part1(p: ProjektInfo, risse: Seq<(Seq<char>, RissConfig)>) -> Seq<char> {
    "<div class='risse-wrapper-container'>
            <div class='projekt-info'>
                "@
        + screen_config_field("Antragsnummer"@, p.antragsnr@, "antragsnr"@)
        + "
                "@
        + screen_config_field("Katasteramt"@, p.katasteramt@, "katasteramt"@)
        + "
                "@
        + screen_config_field("Vermessungsstelle"@, p.vermessungsstelle@, "vermessungsstelle"@)
        + "
                "@
        + screen_config_field("Erstellt durch"@, p.erstellt_durch@, "erstellt_durch"@)
}

/// Part 2 of `screen_risse_ui`.
pub open spec fn screen_risse_ui_part2(p: ProjektInfo, risse: Seq<(Seq<char>, RissConfig)>) -> Seq<char> {
    "
                "@
        + screen_config_field("Beruf (Kürzel)"@, p.beruf_kuerzel@, "beruf_kuerzel"@)
        + "
                "@
        + screen_config_field("Gemeinde"@, p.gemeinde@, "gemeinde"@)
        + "
                "@
        + screen_config_field("Gemarkung"@, p.gemarkung@, "gemarkung"@)
        + "
                "@
        + screen_config_field("Bearb. beendet am"@, p.bearbeitung_beendet_am@, "bearbeitung_beendet_am"@)
}

/// Part 3 of `screen_risse_ui`.
pub open spec fn screen_risse_ui_part3(p: ProjektInfo, risse: Seq<(Seq<char>, RissConfig)>) -> Seq<char> {
    "
                "@
        + screen_config_field("ALKIS Daten vom"@, p.alkis_aktualitaet@, "alkis_aktualitaet"@)
        + "
                "@
        + screen_config_field("Orthofoto vom"@, p.orthofoto_datum@, "orthofoto_datum"@)
        + "
                "@
        + screen_config_field("Feldblöcke vom"@, p.gis_feldbloecke_datum@, "gis_feldbloecke_datum"@)
        + "
            </div>
            <div id='risse' style='display:flex;flex-direction:column;'>
                <h2 style='font-size:16px;font-weight:bold;margin-top:20px;'>Risse</h2>
                <button onclick='rissNeu(event);' style='margin: 10px 0px;display: flex;padding: 10px;border-radius: 5px;cursor: pointer;background: #828295;color: white;border: 1px solid black;'>Neuen Riss anlegen</button>
                "@
        + screen_riss_rows(risse)
}

/// Part 4 of `screen_risse_ui`.
pub open spec fn screen_risse_ui_part4(p: ProjektInfo, risse: Seq<(Seq<char>, RissConfig)>) -> Seq<char> {
    "
            </div>
        </div>"@
}

/// The project data and the survey sheets.
pub open spec fn screen_risse_ui(p: ProjektInfo, risse: Seq<(Seq<char>, RissConfig)>) -> Seq<char> {
    screen_risse_ui_part1(p, risse)
        + screen_risse_ui_part2(p, risse)
        + screen_risse_ui_part3(p, risse)
        + screen_risse_ui_part4(p, risse)
}

/// Part 1 of `screen_riss_row`.
pub open spec fn screen_riss_row_part1(num: Seq<char>, id: Seq<char>, rc: RissConfig) -> Seq<char> {
    "<div class='riss-ui-wrapper' id='riss-"@
        + id
        + "' style='display: flex;margin-bottom: 10px;flex-direction: column;padding: 10px;background: #cccccc;border-radius: 3px;'>

                <div class='row' style='display: flex;justify-content: space-between;padding: 5px 0px;'>
                    <p style='font-size: 14px;font-weight: bold;'>Riss "@
        + num
        + "</p>
                    <p class='__application-secondary-undo' style='margin-left: 10px;display: flex;align-items: center;' onclick='rissLoeschen(event);' data-riss-id='"@
        + id
        + "'>X</p>
                </div>
                <div class='row' style='display: flex;justify-content: space-between;padding: 5px 0px;'>
                    <div>
                        <label for='projekt-info-"@
        + id
}

/// Part 2 of `screen_riss_row`.
pub open spec fn screen_riss_row_part2(num: Seq<char>, id: Seq<char>, rc: RissConfig) -> Seq<char> {
    "' style='font-weight: bold;margin-right: 5px;'>Breite:</label>
                        <input id='riss-"@
        + id
        + "-width' type='number' style='max-width: 100px;margin-right:0px;' value='"@
        + rc.width_mm@
        + "' data-riss-id='"@
        + id
        + "' data-input-id='width' oninput='changeRiss(event);' onchange='changeRiss(event);'></input>
                    </div>
                    <div>
                        <button onclick='switchRissWh(event);' data-riss-id='"@
        + id
}

/// Part 3 of `screen_riss_row`.
pub open spec fn screen_riss_row_part3(num: Seq<char>, id: Seq<char>, rc: RissConfig) -> Seq<char> {
    "'> &lt;&gt;</button>
                    </div>
                    <div>
                        <label for='projekt-info-"@
        + id
        + "' style='font-weight: bold;margin-right: 5px;'>Höhe:</label>
                        <input id='riss-"@
        + id
        + "-height' style='max-width: 100px;margin-right:0px;' type='number' value='"@
        + rc.height_mm@
        + "' data-riss-id='"@
        + id
}

/// Part 4 of `screen_riss_row`.
pub open spec fn screen_riss_row_part4(num: Seq<char>, id: Seq<char>, rc: RissConfig) -> Seq<char> {
    "' data-input-id='height' oninput='changeRiss(event);' onchange='changeRiss(event);'></input>
                    </div>
                </div>

                <div class='row' style='display: flex;justify-content: space-between;padding: 5px 0px;align-items:center;'>
                    <label for='projekt-info-"@
        + id
        + "' style='font-weight: bold;margin-right: 5px;'>Maßstab:</label>
                    <input id='riss-"@
        + id
        + "-scale' type='number' value='"@
        + rc.scale@
        + "' style='display:flex;flex-grow:1;margin-right:0px;' data-riss-id='"@
        + id
}

/// Part 5 of `screen_riss_row`.
pub open spec fn screen_riss_row_part5(num: Seq<char>, id: Seq<char>, rc: RissConfig) -> Seq<char> {
    "' data-input-id='scale' oninput='changeRiss(event);' onchange='changeRiss(event);'></input>
                </div>

                <button id='riss-"@
        + id
        + "-rissgebiet-zeichnen' style='margin-top:10px;padding: 5px;cursor:pointer;' data-riss-id='"@
        + id
        + "' data-input-id='scale' onclick='showHideRissGebiet(event);'>Rissgebiet zeichnen</button>

                <!--
                <button id='riss-"@
        + id
        + "-flm-setzen' style='margin-top:10px;padding: 5px;cursor:pointer;' data-riss-id='"@
        + id
}

/// Part 6 of `screen_riss_row`.
pub open spec fn screen_riss_row_part6(num: Seq<char>, id: Seq<char>, rc: RissConfig) -> Seq<char> {
    "' data-input-id='scale' onclick='showHideFlurMarker(event);'>Flurmarker setzen</button>
                <button id='riss-"@
        + id
        + "-np-setzen' style='margin-top:10px;padding: 5px;cursor:pointer;' data-riss-id='"@
        + id
        + "' onclick='showHideNordpfeil(event);'>Nordpfeil setzen</button>
                <button id='riss-"@
        + id
        + "-anschluss-setzen' style='margin-top:10px;padding: 5px;cursor:pointer;' data-riss-id='"@
        + id
}

/// Part 7 of `screen_riss_row`.
pub open spec fn screen_riss_row_part7(num: Seq<char>, id: Seq<char>, rc: RissConfig) -> Seq<char> {
    "' onclick='showHideAnschlussRisse(event);'>Anschlussrisse setzen</button>
                <button id='riss-"@
        + id
        + "-label-verschieben' style='margin-top:10px;padding: 5px;cursor:pointer;' data-riss-id='"@
        + id
        + "' onclick='showHideLabel(event);'>Label verschieben</button>
                -->
            </div>"@
}

/// A survey sheet with its number `num`, its size and scale.
pub open spec fn screen_riss_row(num: Seq<char>, id: Seq<char>, rc: RissConfig) -> Seq<char> {
    screen_riss_row_part1(num, id, rc)
        + screen_riss_row_part2(num, id, rc)
        + screen_riss_row_part3(num, id, rc)
        + screen_riss_row_part4(num, id, rc)
        + screen_riss_row_part5(num, id, rc)
        + screen_riss_row_part6(num, id, rc)
        + screen_riss_row_part7(num, id, rc)
}

/// The main area: the side panel with the switch and its content, and the map.
pub open spec fn screen_main_map(switch: Seq<char>, content: Seq<char>) -> Seq<char> {
    "
        <div id='__application-main-container' style='display:flex;flex-grow:1;position:relative;overflow:hidden;'>
            <div id='__application_main-overlay-container' style='width:400px;max-width:400px;min-width:400px;display:flex;flex-grow:1;flex-direction:column;box-shadow:0px 0px 10px black;z-index:999;'>
                <div id='switch-content' style='display: flex;flex-direction: row;flex-grow: 1;max-height: 30px;min-height:30px;'>
                    "@
        + switch
        + "
                </div>
                <div style='background:white;padding:20px;pointer-events:all;min-width:400px;display:flex;flex-grow:1'>
                    <div id='__application_project_content' class='csv-scrollbox' style='max-height:80vh;flex-grow: 1;overflow: scroll;display: flex;flex-direction: column;'>
                        "@
        + content
        + "
                    </div>
                </div>
            </div>
            <div id='mapcontainer' style='display:flex;flex-grow:1;flex-direction:row;z-index:0;'>
                <div id='map' style='width:100%;height:100%;'></div>
            </div>
        </div>
    "@
}

/// The empty popover layer.
pub open spec fn screen_popover_none() -> Seq<char> {
    "<div id='__application_popover' style='
            pointer-events:none;
            width: 100%;
            height: 100%;
            min-height: 100%;
            position: fixed;
            z-index:999;
        '></div>"@
}

/// The popover layer with its content.
pub open spec fn screen_popover_some(content: Seq<char>) -> Seq<char> {
    "<div id='__application_popover' style='
        pointer-events:none;
        width: 100%;
        height: 100%;
        min-height: 100%;
        position: fixed;
        z-index:999;
    '>"@
        + content
        + "</div>"@
}

/// The whole page: the popover, the ribbon and the main area.
pub open spec fn screen_screen(popover: Seq<char>, ribbon: Seq<char>, main: Seq<char>) -> Seq<char> {
    "
            <div id='__application_popover_search' style='
                pointer-events:none;
                width: 100%;
                height: 100%;
                min-height: 100%;
                position: fixed;
                z-index:999;
            '></div>
            "@
        + popover
        + "
            <div id='__application-ribbon'>
                "@
        + ribbon
        + "
            </div>
            <div id='__application-main' style='overflow:hidden;'>
                "@
        + main
        + "
            </div>
        "@
}
fn push_config_field(v: &mut Vec<char>, name: &str, value: &str, id: &str)
    ensures
        final(v)@ == old(v)@ + screen_config_field(name@, value@, id@),
{
    let ghost v0 = v@;
    push_str(v, "<div class='ri-config-field'>
            <label for='projekt-info-");
    push_str(v, id);
    push_str(v, "' style='bold'>");
    push_str(v, name);
    push_str(v, "</label>
            <input type='text' id='projekt-info-");
    push_str(v, id);
    push_str(v, "' oninput='projectInfoEdit(event);' onchange='projectInfoEdit(event);' data-id='");
    push_str(v, id);
    push_str(v, "' value='");
    push_str(v, value);
    push_str(v, "'>
        </div>");
    assert(v@ =~= v0 + screen_config_field(name@, value@, id@));
}

fn push_risse_ui_part1(v: &mut Vec<char>, p: &ProjektInfo, risse: &SortedMap<String, RissConfig>)
    ensures
        final(v)@ == old(v)@ + screen_risse_ui_part1(*p, risse.kv()),
{
    let ghost v0 = v@;
    push_str(v, "<div class='risse-wrapper-container'>
            <div class='projekt-info'>
                ");
    push_config_field(v, "Antragsnummer", p.antragsnr.as_str(), "antragsnr");
    push_str(v, "
                ");
    push_config_field(v, "Katasteramt", p.katasteramt.as_str(), "katasteramt");
    push_str(v, "
                ");
    push_config_field(v, "Vermessungsstelle", p.vermessungsstelle.as_str(), "vermessungsstelle");
    push_str(v, "
                ");
    push_config_field(v, "Erstellt durch", p.erstellt_durch.as_str(), "erstellt_durch");
    assert(v@ =~= v0 + screen_risse_ui_part1(*p, risse.kv()));
}

fn push_risse_ui_part2(v: &mut Vec<char>, p: &ProjektInfo, risse: &SortedMap<String, RissConfig>)
    ensures
        final(v)@ == old(v)@ + screen_risse_ui_part2(*p, risse.kv()),
{
    let ghost v0 = v@;
    push_str(v, "
                ");
    push_config_field(v, "Beruf (Kürzel)", p.beruf_kuerzel.as_str(), "beruf_kuerzel");
    push_str(v, "
                ");
    push_config_field(v, "Gemeinde", p.gemeinde.as_str(), "gemeinde");
    push_str(v, "
                ");
    push_config_field(v, "Gemarkung", p.gemarkung.as_str(), "gemarkung");
    push_str(v, "
                ");
    push_config_field(v, "Bearb. beendet am", p.bearbeitung_beendet_am.as_str(), "bearbeitung_beendet_am");
    assert(v@ =~= v0 + screen_risse_ui_part2(*p, risse.kv()));
}

fn push_risse_ui_part3(v: &mut Vec<char>, p: &ProjektInfo, risse: &SortedMap<String, RissConfig>)
    ensures
        final(v)@ == old(v)@ + screen_risse_ui_part3(*p, risse.kv()),
{
    let ghost v0 = v@;
    push_str(v, "
                ");
    push_config_field(v, "ALKIS Daten vom", p.alkis_aktualitaet.as_str(), "alkis_aktualitaet");
    push_str(v, "
                ");
    push_config_field(v, "Orthofoto vom", p.orthofoto_datum.as_str(), "orthofoto_datum");
    push_str(v, "
                ");
    push_config_field(v, "Feldblöcke vom", p.gis_feldbloecke_datum.as_str(), "gis_feldbloecke_datum");
    push_str(v, "
            </div>
            <div id='risse' style='display:flex;flex-direction:column;'>
                <h2 style='font-size:16px;font-weight:bold;margin-top:20px;'>Risse</h2>
                <button onclick='rissNeu(event);' style='margin: 10px 0px;display: flex;padding: 10px;border-radius: 5px;cursor: pointer;background: #828295;color: white;border: 1px solid black;'>Neuen Riss anlegen</button>
                ");
    push_riss_rows(v, risse);
    assert(v@ =~= v0 + screen_risse_ui_part3(*p, risse.kv()));
}

fn push_risse_ui_part4(v: &mut Vec<char>, p: &ProjektInfo, risse: &SortedMap<String, RissConfig>)
    ensures
        final(v)@ == old(v)@ + screen_risse_ui_part4(*p, risse.kv()),
{
    let ghost v0 = v@;
    push_str(v, "
            </div>
        </div>");
    assert(v@ =~= v0 + screen_risse_ui_part4(*p, risse.kv()));
}

fn push_risse_ui(v: &mut Vec<char>, p: &ProjektInfo, risse: &SortedMap<String, RissConfig>)
    ensures
        final(v)@ == old(v)@ + screen_risse_ui(*p, risse.kv()),
{
    let ghost v0 = v@;
    push_risse_ui_part1(v, p, risse);
    push_risse_ui_part2(v, p, risse);
    push_risse_ui_part3(v, p, risse);
    push_risse_ui_part4(v, p, risse);
    assert(v@ =~= v0 + screen_risse_ui(*p, risse.kv()));
}

fn push_riss_row_part1(v: &mut Vec<char>, num: &Vec<char>, id: &String, rc: &RissConfig)
    ensures
        final(v)@ == old(v)@ + screen_riss_row_part1(num@, id@, *rc),
{
    let ghost v0 = v@;
    push_str(v, "<div class='riss-ui-wrapper' id='riss-");
    push_str(v, id.as_str());
    push_str(v, "' style='display: flex;margin-bottom: 10px;flex-direction: column;padding: 10px;background: #cccccc;border-radius: 3px;'>

                <div class='row' style='display: flex;justify-content: space-between;padding: 5px 0px;'>
                    <p style='font-size: 14px;font-weight: bold;'>Riss ");
    push_all(v, num);
    push_str(v, "</p>
                    <p class='__application-secondary-undo' style='margin-left: 10px;display: flex;align-items: center;' onclick='rissLoeschen(event);' data-riss-id='");
    push_str(v, id.as_str());
    push_str(v, "'>X</p>
                </div>
                <div class='row' style='display: flex;justify-content: space-between;padding: 5px 0px;'>
                    <div>
                        <label for='projekt-info-");
    push_str(v, id.as_str());
    assert(v@ =~= v0 + screen_riss_row_part1(num@, id@, *rc));
}

fn push_riss_row_part2(v: &mut Vec<char>, num: &Vec<char>, id: &String, rc: &RissConfig)
    ensures
        final(v)@ == old(v)@ + screen_riss_row_part2(num@, id@, *rc),
{
    let ghost v0 = v@;
    push_str(v, "' style='font-weight: bold;margin-right: 5px;'>Breite:</label>
                        <input id='riss-");
    push_str(v, id.as_str());
    push_str(v, "-width' type='number' style='max-width: 100px;margin-right:0px;' value='");
    push_str(v, rc.width_mm.as_str());
    push_str(v, "' data-riss-id='");
    push_str(v, id.as_str());
    push_str(v, "' data-input-id='width' oninput='changeRiss(event);' onchange='changeRiss(event);'></input>
                    </div>
                    <div>
                        <button onclick='switchRissWh(event);' data-riss-id='");
    push_str(v, id.as_str());
    assert(v@ =~= v0 + screen_riss_row_part2(num@, id@, *rc));
}

fn push_riss_row_part3(v: &mut Vec<char>, num: &Vec<char>, id: &String, rc: &RissConfig)
    ensures
        final(v)@ == old(v)@ + screen_riss_row_part3(num@, id@, *rc),
{
    let ghost v0 = v@;
    push_str(v, "'> &lt;&gt;</button>
                    </div>
                    <div>
                        <label for='projekt-info-");
    push_str(v, id.as_str());
    push_str(v, "' style='font-weight: bold;margin-right: 5px;'>Höhe:</label>
                        <input id='riss-");
    push_str(v, id.as_str());
    push_str(v, "-height' style='max-width: 100px;margin-right:0px;' type='number' value='");
    push_str(v, rc.height_mm.as_str());
    push_str(v, "' data-riss-id='");
    push_str(v, id.as_str());
    assert(v@ =~= v0 + screen_riss_row_part3(num@, id@, *rc));
}

fn push_riss_row_part4(v: &mut Vec<char>, num: &Vec<char>, id: &String, rc: &RissConfig)
    ensures
        final(v)@ == old(v)@ + screen_riss_row_part4(num@, id@, *rc),
{
    let ghost v0 = v@;
    push_str(v, "' data-input-id='height' oninput='changeRiss(event);' onchange='changeRiss(event);'></input>
                    </div>
                </div>

                <div class='row' style='display: flex;justify-content: space-between;padding: 5px 0px;align-items:center;'>
                    <label for='projekt-info-");
    push_str(v, id.as_str());
    push_str(v, "' style='font-weight: bold;margin-right: 5px;'>Maßstab:</label>
                    <input id='riss-");
    push_str(v, id.as_str());
    push_str(v, "-scale' type='number' value='");
    push_str(v, rc.scale.as_str());
    push_str(v, "' style='display:flex;flex-grow:1;margin-right:0px;' data-riss-id='");
    push_str(v, id.as_str());
    assert(v@ =~= v0 + screen_riss_row_part4(num@, id@, *rc));
}

fn push_riss_row_part5(v: &mut Vec<char>, num: &Vec<char>, id: &String, rc: &RissConfig)
    ensures
        final(v)@ == old(v)@ + screen_riss_row_part5(num@, id@, *rc),
{
    let ghost v0 = v@;
    push_str(v, "' data-input-id='scale' oninput='changeRiss(event);' onchange='changeRiss(event);'></input>
                </div>

                <button id='riss-");
    push_str(v, id.as_str());
    push_str(v, "-rissgebiet-zeichnen' style='margin-top:10px;padding: 5px;cursor:pointer;' data-riss-id='");
    push_str(v, id.as_str());
    push_str(v, "' data-input-id='scale' onclick='showHideRissGebiet(event);'>Rissgebiet zeichnen</button>

                <!--
                <button id='riss-");
    push_str(v, id.as_str());
    push_str(v, "-flm-setzen' style='margin-top:10px;padding: 5px;cursor:pointer;' data-riss-id='");
    push_str(v, id.as_str());
    assert(v@ =~= v0 + screen_riss_row_part5(num@, id@, *rc));
}

fn push_riss_row_part6(v: &mut Vec<char>, num: &Vec<char>, id: &String, rc: &RissConfig)
    ensures
        final(v)@ == old(v)@ + screen_riss_row_part6(num@, id@, *rc),
{
    let ghost v0 = v@;
    push_str(v, "' data-input-id='scale' onclick='showHideFlurMarker(event);'>Flurmarker setzen</button>
                <button id='riss-");
    push_str(v, id.as_str());
    push_str(v, "-np-setzen' style='margin-top:10px;padding: 5px;cursor:pointer;' data-riss-id='");
    push_str(v, id.as_str());
    push_str(v, "' onclick='showHideNordpfeil(event);'>Nordpfeil setzen</button>
                <button id='riss-");
    push_str(v, id.as_str());
    push_str(v, "-anschluss-setzen' style='margin-top:10px;padding: 5px;cursor:pointer;' data-riss-id='");
    push_str(v, id.as_str());
    assert(v@ =~= v0 + screen_riss_row_part6(num@, id@, *rc));
}

fn push_riss_row_part7(v: &mut Vec<char>, num: &Vec<char>, id: &String, rc: &RissConfig)
    ensures
        final(v)@ == old(v)@ + screen_riss_row_part7(num@, id@, *rc),
{
    let ghost v0 = v@;
    push_str(v, "' onclick='showHideAnschlussRisse(event);'>Anschlussrisse setzen</button>
                <button id='riss-");
    push_str(v, id.as_str());
    push_str(v, "-label-verschieben' style='margin-top:10px;padding: 5px;cursor:pointer;' data-riss-id='");
    push_str(v, id.as_str());
    push_str(v, "' onclick='showHideLabel(event);'>Label verschieben</button>
                -->
            </div>");
    assert(v@ =~= v0 + screen_riss_row_part7(num@, id@, *rc));
}

fn push_riss_row(v: &mut Vec<char>, num: &Vec<char>, id: &String, rc: &RissConfig)
    ensures
        final(v)@ == old(v)@ + screen_riss_row(num@, id@, *rc),
{
    let ghost v0 = v@;
    push_riss_row_part1(v, num, id, rc);
    push_riss_row_part2(v, num, id, rc);
    push_riss_row_part3(v, num, id, rc);
    push_riss_row_part4(v, num, id, rc);
    push_riss_row_part5(v, num, id, rc);
    push_riss_row_part6(v, num, id, rc);
    push_riss_row_part7(v, num, id, rc);
    assert(v@ =~= v0 + screen_riss_row(num@, id@, *rc));
}

fn push_main_map(v: &mut Vec<char>, switch: &str, content: &str)
    ensures
        final(v)@ == old(v)@ + screen_main_map(switch@, content@),
{
    let ghost v0 = v@;
    push_str(v, "
        <div id='__application-main-container' style='display:flex;flex-grow:1;position:relative;overflow:hidden;'>
            <div id='__application_main-overlay-container' style='width:400px;max-width:400px;min-width:400px;display:flex;flex-grow:1;flex-direction:column;box-shadow:0px 0px 10px black;z-index:999;'>
                <div id='switch-content' style='display: flex;flex-direction: row;flex-grow: 1;max-height: 30px;min-height:30px;'>
                    ");
    push_str(v, switch);
    push_str(v, "
                </div>
                <div style='background:white;padding:20px;pointer-events:all;min-width:400px;display:flex;flex-grow:1'>
                    <div id='__application_project_content' class='csv-scrollbox' style='max-height:80vh;flex-grow: 1;overflow: scroll;display: flex;flex-direction: column;'>
                        ");
    push_str(v, content);
    push_str(v, "
                    </div>
                </div>
            </div>
            <div id='mapcontainer' style='display:flex;flex-grow:1;flex-direction:row;z-index:0;'>
                <div id='map' style='width:100%;height:100%;'></div>
            </div>
        </div>
    ");
    assert(v@ =~= v0 + screen_main_map(switch@, content@));
}

fn push_popover_none(v: &mut Vec<char>)
    ensures
        final(v)@ == old(v)@ + screen_popover_none(),
{
    let ghost v0 = v@;
    push_str(v, "<div id='__application_popover' style='
            pointer-events:none;
            width: 100%;
            height: 100%;
            min-height: 100%;
            position: fixed;
            z-index:999;
        '></div>");
    assert(v@ =~= v0 + screen_popover_none());
}

fn push_popover_some(v: &mut Vec<char>, content: &str)
    ensures
        final(v)@ == old(v)@ + screen_popover_some(content@),
{
    let ghost v0 = v@;
    push_str(v, "<div id='__application_popover' style='
        pointer-events:none;
        width: 100%;
        height: 100%;
        min-height: 100%;
        position: fixed;
        z-index:999;
    '>");
    push_str(v, content);
    push_str(v, "</div>");
    assert(v@ =~= v0 + screen_popover_some(content@));
}

fn push_screen(v: &mut Vec<char>, popover: &str, ribbon: &str, main: &str)
    ensures
        final(v)@ == old(v)@ + screen_screen(popover@, ribbon@, main@),
{
    let ghost v0 = v@;
    push_str(v, "
            <div id='__application_popover_search' style='
                pointer-events:none;
                width: 100%;
                height: 100%;
                min-height: 100%;
                position: fixed;
                z-index:999;
            '></div>
            ");
    push_str(v, popover);
    push_str(v, "
            <div id='__application-ribbon'>
                ");
    push_str(v, ribbon);
    push_str(v, "
            </div>
            <div id='__application-main' style='overflow:hidden;'>
                ");
    push_str(v, main);
    push_str(v, "
            </div>
        ");
    assert(v@ =~= v0 + screen_screen(popover@, ribbon@, main@));
}

fn push_riss_rows(v: &mut Vec<char>, risse: &SortedMap<String, RissConfig>)
    ensures
        final(v)@ == old(v)@ + screen_riss_rows(risse.kv()),
{
    let ghost kv = risse.kv();
    let ghost rows = Seq::new(kv.len(), |i: int| screen_riss_row(dec((i + 1) as nat), kv[i].0, kv[i].1));
    let ghost v0 = v@;
    let n = risse.len();
    let mut i: usize = 0;
    assert(rows.take(0) =~= Seq::<Seq<char>>::empty());
    assert(v@ =~= v0 + concat_all(rows.take(0)));
    while i < n
        invariant
            i <= n,
            n == kv.len(),
            kv == risse.kv(),
            rows == Seq::new(kv.len(), |i: int| screen_riss_row(dec((i + 1) as nat), kv[i].0, kv[i].1)),
            v@ == v0 + concat_all(rows.take(i as int)),
        decreases n - i,
    {
        let num = usize_to_chars(i + 1);
        push_riss_row(v, &num, risse.key_at(i), risse.value_at(i));
        assert(rows.take(i + 1).drop_last() =~= rows.take(i as int));
        assert(v@ =~= v0 + concat_all(rows.take(i + 1)));
        i = i + 1;
    }
    assert(rows.take(n as int) =~= rows);
}

/// The project data and the survey sheets (the EXPORT tab).
pub fn render_risse_ui(projekt_info: &ProjektInfo, risse: &SortedMap<String, RissConfig>) -> (r: String)
    ensures
        r@ == screen_risse_ui(*projekt_info, risse.kv()),
{
    let mut v: Vec<char> = Vec::new();
    push_risse_ui(&mut v, projekt_info, risse);
    assert(v@ =~= screen_risse_ui(*projekt_info, risse.kv()));
    string_from_chars(v.as_slice())
}

/// The selected parcel in its long form, if the UI state names one.
pub open spec fn selected_nice(ui: UiData) -> Option<Seq<char>> {
    match parse_key(ui.selected_edit_flst@) {
        Some(n) => Some(spec_format_nice(n)),
        None => None,
    }
}

/// The project's content: the survey sheets on the EXPORT tab, the cards of
/// the parcels otherwise.
pub open spec fn spec_project_content(
    p: ProjektInfo,
    risse: SortedMap<String, RissConfig>,
    csv: CsvDataType,
    a: Aenderungen,
    ui: UiData,
    split: Option<SortedMap<String, Vec<TaggedPolygon>>>,
    cat: NutzungsArtMap,
) -> Seq<char> {
    spec_normalize_for_js(
        if ui.tab == Some(2usize) {
            screen_risse_ui(p, risse.kv())
        } else {
            spec_csv_cards(spec_old_fallback(csv@), selected_nice(ui), split, a.na_definiert, cat)
        },
    )
}

/// The project's content, for the page's JavaScript.
pub fn render_project_content(
    projekt_info: &ProjektInfo,
    risse: &SortedMap<String, RissConfig>,
    csv: &CsvDataType,
    aenderungen: &Aenderungen,
    uidata: &UiData,
    split_fs: &SortedMap<String, Vec<TaggedPolygon>>,
    catalogue: &NutzungsArtMap,
) -> (r: String)
    ensures
        r@ == spec_project_content(*projekt_info, *risse, *csv, *aenderungen, *uidata, Some(*split_fs), *catalogue),
{
    let s = match uidata.tab {
        Some(2) => render_risse_ui(projekt_info, risse),
        _ => render_csv_editable(
            csv,
            &aenderungen.na_definiert,
            uidata.selected_edit_flst.as_str(),
            Some(split_fs),
            catalogue,
        ),
    };
    normalize_for_js(s)
}

/// The main area: the switch, then the list of changes where the UI state
/// asks for it, else the project's content (without split data); then the
/// map.
pub open spec fn spec_main(
    p: ProjektInfo,
    risse: SortedMap<String, RissConfig>,
    ui: UiData,
    csv: CsvDataType,
    a: Aenderungen,
    icon_lock: Seq<char>,
    icon_unlock: Seq<char>,
    cat: NutzungsArtMap,
) -> Seq<char> {
    spec_normalize_for_js(
        screen_main_map(
            spec_switch_content(ui.tab, ui.secondary_content),
            if ui.secondary_content.unwrap_or(false) {
                spec_secondary_content(a.gebaeude_loeschen.kv(), a.na_polygone_neu.kv(), icon_lock, icon_unlock, cat)
            } else {
                spec_project_content(p, risse, csv, a, ui, None, cat)
            },
        ),
    )
}

/// The main area, for the page's JavaScript.
pub fn render_main(
    projekt_info: &ProjektInfo,
    risse: &SortedMap<String, RissConfig>,
    uidata: &UiData,
    csv: &CsvDataType,
    aenderungen: &Aenderungen,
    icon_lock: &str,
    icon_unlock: &str,
    catalogue: &NutzungsArtMap,
) -> (r: String)
    ensures
        r@ == spec_main(*projekt_info, *risse, *uidata, *csv, *aenderungen, icon_lock@, icon_unlock@, *catalogue),
{
    let switch = render_switch_content(uidata.tab, uidata.secondary_content);
    let secondary = match uidata.secondary_content {
        Some(b) => b,
        None => false,
    };
    let content = if secondary {
        render_secondary_content(
            &aenderungen.gebaeude_loeschen,
            &aenderungen.na_polygone_neu,
            icon_lock,
            icon_unlock,
            catalogue,
        )
    } else {
        let empty: SortedMap<String, Vec<TaggedPolygon>> = SortedMap::new();
        let c = render_project_content(projekt_info, risse, csv, aenderungen, uidata, &empty, catalogue);
        proof {
            lemma_csv_cards_empty_split(
                spec_old_fallback(csv@),
                selected_nice(*uidata),
                empty,
                aenderungen.na_definiert,
                *catalogue,
            );
        }
        c
    };
    let mut v: Vec<char> = Vec::new();
    push_main_map(&mut v, switch.as_str(), content.as_str());
    assert(v@ =~= screen_main_map(switch@, content@));
    normalize_for_js(string_from_chars(v.as_slice()))
}

/// The popover layer: empty where no popover is open.
pub open spec fn spec_popover(ui: UiData, k: Konfiguration, a: PopoverAssets) -> Seq<char> {
    spec_normalize_for_js(
        match ui.popover_state {
            None => screen_popover_none(),
            Some(_) => screen_popover_some(spec_popover_content(ui, k, a)),
        },
    )
}

/// The popover layer, for the page's JavaScript.
pub fn render_popover(rpc_data: &UiData, konfiguration: &Konfiguration, assets: &PopoverAssets) -> (r: String)
    ensures
        r@ == spec_popover(*rpc_data, *konfiguration, *assets),
{
    let mut v: Vec<char> = Vec::new();
    match rpc_data.popover_state {
        None => {
            push_popover_none(&mut v);
            assert(v@ =~= screen_popover_none());
        },
        Some(_) => {
            let c = render_popover_content(rpc_data, konfiguration, assets);
            push_popover_some(&mut v, c.as_str());
            assert(v@ =~= screen_popover_some(c@));
        },
    }
    normalize_for_js(string_from_chars(v.as_slice()))
}

/// The whole page: the popover, the ribbon of the UI state's tab and tool,
/// and the main area.
pub open spec fn spec_entire_screen(
    p: ProjektInfo,
    risse: SortedMap<String, RissConfig>,
    ui: UiData,
    csv: CsvDataType,
    a: Aenderungen,
    k: Konfiguration,
    assets: ScreenAssets,
    cat: NutzungsArtMap,
) -> Seq<char> {
    spec_normalize_for_js(
        screen_screen(
            spec_popover(ui, k, assets.popover),
            spec_normalize_for_js(
                if ui.tab.unwrap_or(0) == 0 {
                    ribbon_start(assets.ribbon, ui.tool)
                } else {
                    ribbon_export(assets.ribbon, ui.tool)
                },
            ),
            spec_main(p, risse, ui, csv, a, assets.icon_lock@, assets.icon_unlock@, cat),
        ),
    )
}

/// The whole page, for the page's JavaScript.
pub fn render_entire_screen(
    projekt_info: &ProjektInfo,
    risse: &SortedMap<String, RissConfig>,
    rpc_data: &UiData,
    csv: &CsvDataType,
    aenderungen: &Aenderungen,
    konfiguration: &Konfiguration,
    assets: &ScreenAssets,
    catalogue: &NutzungsArtMap,
) -> (r: String)
    ensures
        r@ == spec_entire_screen(
            *projekt_info,
            *risse,
            *rpc_data,
            *csv,
            *aenderungen,
            *konfiguration,
            *assets,
            *catalogue,
        ),
{
    let popover = render_popover(rpc_data, konfiguration, &assets.popover);
    let ribbon = render_ribbon(rpc_data.tab, rpc_data.tool, &assets.ribbon);
    let main = render_main(
        projekt_info,
        risse,
        rpc_data,
        csv,
        aenderungen,
        assets.icon_lock.as_str(),
        assets.icon_unlock.as_str(),
        catalogue,
    );
    let mut v: Vec<char> = Vec::new();
    push_screen(&mut v, popover.as_str(), ribbon.as_str(), main.as_str());
    assert(v@ =~= screen_screen(popover@, ribbon@, main@));
    normalize_for_js(string_from_chars(v.as_slice()))
}

} // verus!
