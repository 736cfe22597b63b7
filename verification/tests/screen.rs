use tnviewer::csv::CsvDataType;
use tnviewer::pdf::{Konfiguration, MapKonfiguration, PdfStyleConfig, ProjektInfo, StyleConfig};
use tnviewer::popover::{PopoverAssets, PopoverState, UiData};
use tnviewer::ribbon::{render_ribbon, RibbonIcons};
use tnviewer::screen::{
    render_entire_screen, render_main, render_popover, render_project_content, render_risse_ui, Aenderungen, RissConfig,
    ScreenAssets,
};
use tnviewer::search::NutzungsArtMap;
use tnviewer::sorted_map::SortedMap;
use tnviewer::ui::{
    normalize_for_js, render_csv_editable, render_secondary_content, GebaeudeLoeschen, PolyNeuInfo,
};
use tnviewer::popover::render_popover_content;

fn info() -> ProjektInfo {
    ProjektInfo {
        antragsnr: "73_0001".to_string(),
        katasteramt: "Amt".to_string(),
        vermessungsstelle: "Stelle".to_string(),
        erstellt_durch: "Ich".to_string(),
        beruf_kuerzel: "VI".to_string(),
        gemeinde: "Ort".to_string(),
        gemarkung: "Flur".to_string(),
        bearbeitung_beendet_am: "1.1.2024".to_string(),
        alkis_aktualitaet: "2.1.2024".to_string(),
        orthofoto_datum: "3.1.2024".to_string(),
        gis_feldbloecke_datum: "4.1.2024".to_string(),
    }
}

fn risse() -> SortedMap<String, RissConfig> {
    let mut m = SortedMap::new();
    m.insert("r1".to_string(), RissConfig { width_mm: "420".to_string(), height_mm: "297".to_string(), scale: "2500".to_string() });
    m.insert("r2".to_string(), RissConfig { width_mm: "297".to_string(), height_mm: "210".to_string(), scale: "1000.5".to_string() });
    m
}

fn aenderungen() -> Aenderungen {
    let mut g = SortedMap::new();
    g.insert("G1".to_string(), GebaeudeLoeschen { gebaeude_id: "G1".to_string(), flst_id: vec!["12-1180-003-00001/0000".to_string()] });
    let mut n = SortedMap::new();
    n.insert("N1".to_string(), PolyNeuInfo { nutzung: Some("WALD".to_string()), locked: true });
    Aenderungen { gebaeude_loeschen: g, na_definiert: SortedMap::new(), na_polygone_neu: n }
}

fn ui(tab: Option<usize>, secondary: Option<bool>, state: Option<PopoverState>) -> UiData {
    UiData { popover_state: state, tab, tool: None, selected_edit_flst: String::new(), secondary_content: secondary, render_out: None }
}

fn popover_assets() -> PopoverAssets {
    PopoverAssets {
        icon_close: "C".to_string(),
        icon_settings: "S".to_string(),
        icon_clean: "K".to_string(),
        icon_save: "V".to_string(),
        icon_load: "L".to_string(),
        license_base64: "LIC".to_string(),
        handbook_base64: "DOC".to_string(),
        version: "0.1".to_string(),
    }
}

fn ribbon_icons() -> RibbonIcons {
    let s = |x: &str| x.to_string();
    RibbonIcons {
        open: s("o"), neu: s("n"), back: s("b"), forward: s("f"), xml: s("x"), save: s("s"), settings: s("e"), help: s("h"),
        info: s("i"), house: s("u"), transfer: s("t"), geograf: s("g"), log: s("l"), georg: s("r"), david: s("d"), broom: s("m"),
    }
}

fn konfiguration() -> Konfiguration {
    Konfiguration {
        map: MapKonfiguration { basemap: None, dop_source: None, dop_layers: None, dgm_source: None, dgm_layers: None },
        style: StyleConfig { ebenen_ordnung: Vec::new(), ebenen: SortedMap::new() },
        pdf: PdfStyleConfig {
            grenzpunkt_svg: None,
            pfeil_svg: None,
            nordpfeil_svg: None,
            gebauede_loeschen_svg: None,
            layer_ordnung: Vec::new(),
            nutzungsarten: SortedMap::new(),
        },
    }
}

/// The survey sheet page as the viewer writes it.
fn expected_risse(projekt_info: &ProjektInfo, risse: &SortedMap<String, RissConfig>) -> String {
    let render_config_field = |(name, value, id): (&str, &str, &str)| {
        format!("<div class='ri-config-field'>
            <label for='projekt-info-{id}' style='bold'>{name}</label>
            <input type='text' id='projekt-info-{id}' oninput='projectInfoEdit(event);' onchange='projectInfoEdit(event);' data-id='{id}' value='{value}'>
        </div>")
    };
    let mut rows = String::new();
    for riss_num in 0..risse.len() {
        let id = risse.key_at(riss_num);
        let rc = risse.value_at(riss_num);
        rows += &format!("<div class='riss-ui-wrapper' id='riss-{id}' style='display: flex;margin-bottom: 10px;flex-direction: column;padding: 10px;background: #cccccc;border-radius: 3px;'>

                <div class='row' style='display: flex;justify-content: space-between;padding: 5px 0px;'>
                    <p style='font-size: 14px;font-weight: bold;'>Riss {riss_num}</p>
                    <p class='__application-secondary-undo' style='margin-left: 10px;display: flex;align-items: center;' onclick='rissLoeschen(event);' data-riss-id='{id}'>X</p>
                </div>
                <div class='row' style='display: flex;justify-content: space-between;padding: 5px 0px;'>
                    <div>
                        <label for='projekt-info-{id}' style='font-weight: bold;margin-right: 5px;'>Breite:</label>
                        <input id='riss-{id}-width' type='number' style='max-width: 100px;margin-right:0px;' value='{width}' data-riss-id='{id}' data-input-id='width' oninput='changeRiss(event);' onchange='changeRiss(event);'></input>
                    </div>
                    <div>
                        <button onclick='switchRissWh(event);' data-riss-id='{id}'> &lt;&gt;</button>
                    </div>
                    <div>
                        <label for='projekt-info-{id}' style='font-weight: bold;margin-right: 5px;'>Höhe:</label>
                        <input id='riss-{id}-height' style='max-width: 100px;margin-right:0px;' type='number' value='{height}' data-riss-id='{id}' data-input-id='height' oninput='changeRiss(event);' onchange='changeRiss(event);'></input>
                    </div>
                </div>

                <div class='row' style='display: flex;justify-content: space-between;padding: 5px 0px;align-items:center;'>
                    <label for='projekt-info-{id}' style='font-weight: bold;margin-right: 5px;'>Maßstab:</label>
                    <input id='riss-{id}-scale' type='number' value='{scale}' style='display:flex;flex-grow:1;margin-right:0px;' data-riss-id='{id}' data-input-id='scale' oninput='changeRiss(event);' onchange='changeRiss(event);'></input>
                </div>

                <button id='riss-{id}-rissgebiet-zeichnen' style='margin-top:10px;padding: 5px;cursor:pointer;' data-riss-id='{id}' data-input-id='scale' onclick='showHideRissGebiet(event);'>Rissgebiet zeichnen</button>

                <!--
                <button id='riss-{id}-flm-setzen' style='margin-top:10px;padding: 5px;cursor:pointer;' data-riss-id='{id}' data-input-id='scale' onclick='showHideFlurMarker(event);'>Flurmarker setzen</button>
                <button id='riss-{id}-np-setzen' style='margin-top:10px;padding: 5px;cursor:pointer;' data-riss-id='{id}' onclick='showHideNordpfeil(event);'>Nordpfeil setzen</button>
                <button id='riss-{id}-anschluss-setzen' style='margin-top:10px;padding: 5px;cursor:pointer;' data-riss-id='{id}' onclick='showHideAnschlussRisse(event);'>Anschlussrisse setzen</button>
                <button id='riss-{id}-label-verschieben' style='margin-top:10px;padding: 5px;cursor:pointer;' data-riss-id='{id}' onclick='showHideLabel(event);'>Label verschieben</button>
                -->
            </div>",
            width = rc.width_mm,
            height = rc.height_mm,
            scale = rc.scale,
            riss_num = riss_num + 1,
        );
    }
    format!("<div class='risse-wrapper-container'>
            <div class='projekt-info'>
                {antragsnr}
                {katasteramt}
                {vermessungsstelle}
                {erstellt_durch}
                {beruf_kuerzel}
                {gemeinde}
                {gemarkung}
                {bearbeitung_beendet_am}
                {alkis_akt}
                {ortho_akt}
                {feldbloecke_vom}
            </div>
            <div id='risse' style='display:flex;flex-direction:column;'>
                <h2 style='font-size:16px;font-weight:bold;margin-top:20px;'>Risse</h2>
                <button onclick='rissNeu(event);' style='margin: 10px 0px;display: flex;padding: 10px;border-radius: 5px;cursor: pointer;background: #828295;color: white;border: 1px solid black;'>Neuen Riss anlegen</button>
                {risse}
            </div>
        </div>",
        antragsnr = render_config_field(("Antragsnummer", &projekt_info.antragsnr, "antragsnr")),
        katasteramt = render_config_field(("Katasteramt", &projekt_info.katasteramt, "katasteramt")),
        vermessungsstelle = render_config_field(("Vermessungsstelle", &projekt_info.vermessungsstelle, "vermessungsstelle")),
        erstellt_durch = render_config_field(("Erstellt durch", &projekt_info.erstellt_durch, "erstellt_durch")),
        beruf_kuerzel = render_config_field(("Beruf (Kürzel)", &projekt_info.beruf_kuerzel, "beruf_kuerzel")),
        gemeinde = render_config_field(("Gemeinde", &projekt_info.gemeinde, "gemeinde")),
        gemarkung = render_config_field(("Gemarkung", &projekt_info.gemarkung, "gemarkung")),
        bearbeitung_beendet_am = render_config_field(("Bearb. beendet am", &projekt_info.bearbeitung_beendet_am, "bearbeitung_beendet_am")),
        alkis_akt = render_config_field(("ALKIS Daten vom", &projekt_info.alkis_aktualitaet, "alkis_aktualitaet")),
        ortho_akt = render_config_field(("Orthofoto vom", &projekt_info.orthofoto_datum, "orthofoto_datum")),
        feldbloecke_vom = render_config_field(("Feldblöcke vom", &projekt_info.gis_feldbloecke_datum, "gis_feldbloecke_datum")),
        risse = rows,
    )
}

#[test]
fn survey_sheet_page() {
    let got = render_risse_ui(&info(), &risse());
    assert_eq!(got, expected_risse(&info(), &risse()));
    assert!(got.contains("<p style='font-size: 14px;font-weight: bold;'>Riss 2</p>"));
    assert!(got.contains("value='1000.5'"));
    assert!(got.contains("data-id='antragsnr' value='73_0001'"));
}

#[test]
fn project_content_by_tab() {
    let csv = CsvDataType::default();
    let cat = NutzungsArtMap::new();
    let split = SortedMap::new();
    let a = aenderungen();
    let on_export = render_project_content(&info(), &risse(), &csv, &a, &ui(Some(2), None, None), &split, &cat);
    assert_eq!(on_export, normalize_for_js(expected_risse(&info(), &risse())));
    let on_start = render_project_content(&info(), &risse(), &csv, &a, &ui(Some(0), None, None), &split, &cat);
    assert_eq!(on_start, normalize_for_js(render_csv_editable(&csv, &a.na_definiert, "", Some(&split), &cat)));
}

#[test]
fn main_area_with_project_or_changes() {
    let csv = CsvDataType::default();
    let cat = NutzungsArtMap::new();
    let a = aenderungen();
    let u = ui(None, Some(true), None);
    let got = render_main(&info(), &risse(), &u, &csv, &a, "LOCK", "UNLOCK", &cat);
    let render_switch_content = tnviewer::ui::render_switch_content(None, Some(true));
    let content = render_secondary_content(&a.gebaeude_loeschen, &a.na_polygone_neu, "LOCK", "UNLOCK", &cat);
    assert_eq!(got, normalize_for_js(format!("
        <div id='__application-main-container' style='display:flex;flex-grow:1;position:relative;overflow:hidden;'>
            <div id='__application_main-overlay-container' style='width:400px;max-width:400px;min-width:400px;display:flex;flex-grow:1;flex-direction:column;box-shadow:0px 0px 10px black;z-index:999;'>
                <div id='switch-content' style='display: flex;flex-direction: row;flex-grow: 1;max-height: 30px;min-height:30px;'>
                    {render_switch_content}
                </div>
                <div style='background:white;padding:20px;pointer-events:all;min-width:400px;display:flex;flex-grow:1'>
                    <div id='__application_project_content' class='csv-scrollbox' style='max-height:80vh;flex-grow: 1;overflow: scroll;display: flex;flex-direction: column;'>
                        {content}
                    </div>
                </div>
            </div>
            <div id='mapcontainer' style='display:flex;flex-grow:1;flex-direction:row;z-index:0;'>
                <div id='map' style='width:100%;height:100%;'></div>
            </div>
        </div>
    ")));
    let u = ui(Some(2), None, None);
    let got = render_main(&info(), &risse(), &u, &csv, &a, "LOCK", "UNLOCK", &cat);
    let render_switch_content = tnviewer::ui::render_switch_content(Some(2), None);
    let content = render_project_content(&info(), &risse(), &csv, &a, &u, &SortedMap::new(), &cat);
    assert_eq!(got, normalize_for_js(format!("
        <div id='__application-main-container' style='display:flex;flex-grow:1;position:relative;overflow:hidden;'>
            <div id='__application_main-overlay-container' style='width:400px;max-width:400px;min-width:400px;display:flex;flex-grow:1;flex-direction:column;box-shadow:0px 0px 10px black;z-index:999;'>
                <div id='switch-content' style='display: flex;flex-direction: row;flex-grow: 1;max-height: 30px;min-height:30px;'>
                    {render_switch_content}
                </div>
                <div style='background:white;padding:20px;pointer-events:all;min-width:400px;display:flex;flex-grow:1'>
                    <div id='__application_project_content' class='csv-scrollbox' style='max-height:80vh;flex-grow: 1;overflow: scroll;display: flex;flex-direction: column;'>
                        {content}
                    </div>
                </div>
            </div>
            <div id='mapcontainer' style='display:flex;flex-grow:1;flex-direction:row;z-index:0;'>
                <div id='map' style='width:100%;height:100%;'></div>
            </div>
        </div>
    ")));
}

#[test]
fn popover_layer() {
    let k = konfiguration();
    let a = popover_assets();
    assert_eq!(render_popover(&ui(None, None, None), &k, &a), normalize_for_js(format!("<div id='__application_popover' style='
            pointer-events:none;
            width: 100%;
            height: 100%;
            min-height: 100%;
            position: fixed;
            z-index:999;
        '></div>")));
    let u = ui(None, None, Some(PopoverState::Info));
    assert_eq!(render_popover(&u, &k, &a), normalize_for_js(format!("<div id='__application_popover' style='
        pointer-events:none;
        width: 100%;
        height: 100%;
        min-height: 100%;
        position: fixed;
        z-index:999;
    '>{}</div>", render_popover_content(&u, &k, &a))));
}

#[test]
fn whole_page() {
    let csv = CsvDataType::default();
    let cat = NutzungsArtMap::new();
    let a = aenderungen();
    let k = konfiguration();
    let assets = ScreenAssets { ribbon: ribbon_icons(), popover: popover_assets(), icon_lock: "LOCK".to_string(), icon_unlock: "UNLOCK".to_string() };
    let u = ui(Some(2), Some(false), Some(PopoverState::Help));
    let got = render_entire_screen(&info(), &risse(), &u, &csv, &a, &k, &assets, &cat);
    let popover = render_popover(&u, &k, &assets.popover);
    let ribbon_ui = render_ribbon(Some(2), None, &assets.ribbon);
    let main = render_main(&info(), &risse(), &u, &csv, &a, "LOCK", "UNLOCK", &cat);
    assert_eq!(got, normalize_for_js(format!("
            <div id='__application_popover_search' style='
                pointer-events:none;
                width: 100%;
                height: 100%;
                min-height: 100%;
                position: fixed;
                z-index:999;
            '></div>
            {popover}
            <div id='__application-ribbon'>
                {ribbon_ui}
            </div>
            <div id='__application-main' style='overflow:hidden;'>
                {main}
            </div>
        ")));
    assert!(got.contains("Riss 1"));
    assert!(got.contains("Benutzerhandbuch"));
    assert!(got.contains("EXPORT"));
}
