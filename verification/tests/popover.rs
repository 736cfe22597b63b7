use tnviewer::pdf::{EbenenStyle, Konfiguration, MapKonfiguration, PdfEbenenStyle, PdfStyleConfig, PtoStil, StyleConfig};
use tnviewer::popover::{render_popover_content, ContextMenuData, PopoverAssets, PopoverState, UiData};
use tnviewer::ui::ConfigurationView;
use tnviewer::sorted_map::SortedMap;
use tnviewer::ui::normalize_for_js;

fn assets() -> PopoverAssets {
    PopoverAssets {
        icon_close: "ICON_CLOSE".to_string(),
        icon_settings: "ICON_SETTINGS".to_string(),
        icon_clean: "ICON_CLEAN".to_string(),
        icon_save: "ICON_SAVE".to_string(),
        icon_load: "ICON_LOAD".to_string(),
        license_base64: "TElDRU5TRQ==".to_string(),
        handbook_base64: "SEFOREJVQ0g=".to_string(),
        version: "1.2.3".to_string(),
    }
}

fn ui(state: Option<PopoverState>) -> UiData {
    UiData { popover_state: state, tab: None, tool: None, selected_edit_flst: String::new(), secondary_content: None, render_out: None }
}

fn konfiguration() -> Konfiguration {
    let mut ebenen = SortedMap::new();
    ebenen.insert(
        "s1".to_string(),
        EbenenStyle { name: "  Wald ".to_string(), fill_color: Some("#00ff00".to_string()), outline_color: None, outline_thickness: Some("0.5".to_string()) },
    );
    ebenen.insert(
        "s2".to_string(),
        EbenenStyle { name: "Wasser".to_string(), fill_color: None, outline_color: Some("#0000ff".to_string()), outline_thickness: None },
    );
    let mut nutzungsarten = SortedMap::new();
    nutzungsarten.insert(
        "p1".to_string(),
        PdfEbenenStyle {
            kuerzel: "WALD".to_string(),
            fill_color: None,
            fill: true,
            outline_color: Some("#111111".to_string()),
            outline_thickness: Some("0.1".to_string()),
            outline_dash: Some("2 2".to_string()),
            outline_overprint: true,
            pattern_svg: Some("<svg/>".to_string()),
            pattern_placement: Some("mitte".to_string()),
            lagebez_ohne_hsnr: PtoStil { art: "BEZ".to_string(), fontsize: Some("12".to_string()), font: Some("Arial".to_string()), color: None },
        },
    );
    nutzungsarten.insert(
        "p2".to_string(),
        PdfEbenenStyle {
            kuerzel: "GR".to_string(),
            fill_color: Some("#222222".to_string()),
            fill: false,
            outline_color: None,
            outline_thickness: None,
            outline_dash: None,
            outline_overprint: false,
            pattern_svg: None,
            pattern_placement: None,
            lagebez_ohne_hsnr: PtoStil { art: String::new(), fontsize: None, font: None, color: Some("#333333".to_string()) },
        },
    );
    Konfiguration {
        map: MapKonfiguration {
            basemap: Some(" https://karte ".to_string()),
            dop_source: None,
            dop_layers: Some("dop".to_string()),
            dgm_source: Some("dgm-quelle".to_string()),
            dgm_layers: None,
        },
        style: StyleConfig { ebenen_ordnung: vec!["s2".to_string(), "fehlt".to_string(), "s1".to_string()], ebenen },
        pdf: PdfStyleConfig {
            grenzpunkt_svg: Some("<g/>".to_string()),
            pfeil_svg: None,
            nordpfeil_svg: Some("<n/>".to_string()),
            gebauede_loeschen_svg: None,
            layer_ordnung: vec!["p1".to_string(), "p2".to_string()],
            nutzungsarten,
        },
    }
}

/// The popover as the viewer writes it.
fn expected(state: &Option<PopoverState>, konfiguration: &Konfiguration, a: &PopoverAssets) -> String {
    let state = match state {
        None => return String::new(),
        Some(s) => s,
    };
    let is_context_menu_open = matches!(state, PopoverState::ContextMenu(_));
    let application_popover_color = if !is_context_menu_open { "rgba(0, 0, 0, 0.5)" } else { "transparent" };
    let icon_close_base64 = &a.icon_close;
    let close_button = format!("
    <div style='position:absolute;top:50px;z-index:9999;right:-25px;background:white;border-radius:10px;box-shadow: 0px 0px 10px #cccccc88;cursor:pointer;' onmouseup='closePopOver()'>
        <img src='data:image/png;base64,{icon_close_base64}' style='width:50px;height:50px;cursor:pointer;' />
    </div>");
    let pc = match state {
        PopoverState::Info => format!("
            <div style='box-shadow:0px 0px 100px #22222288;pointer-events:initial;width:800px;display:flex;flex-direction:column;position:relative;margin:10px auto;border:1px solid grey;background:white;padding:100px;border-radius:5px;' onmousedown='event.stopPropagation();' onmouseup='event.stopPropagation();'>
                
                {close_button}

                <h2 style='font-size:24px;font-family:sans-serif;'>Digitales Projekt Version {version}</h2>
                
                <div style='padding:5px 0px;display:flex;flex-grow:1;min-height:750px;'>
                    <iframe width='auto' height='auto' src='data:text/html;base64,{license_base64}' style='min-width:100%;min-height:100%;'></iframe>                       
                </div>
                                
            </div>
            ", version = a.version, license_base64 = a.license_base64),
        PopoverState::Help => {
            let base64_dok = &a.handbook_base64;
            format!("
            <div style='box-shadow:0px 0px 100px #22222288;pointer-events:initial;width:800px;display:flex;flex-direction:column;position:relative;margin:10px auto;border:1px solid grey;background:white;padding:100px;border-radius:5px;' onmousedown='event.stopPropagation();' onmouseup='event.stopPropagation();'>

                {close_button}
                
                <h2 style='font-size:24px;font-family:sans-serif;margin-bottom:25px;'>Benutzerhandbuch</h2>
                <div style='padding:5px 0px;display:flex;flex-grow:1;line-height:1.5;min-height:750px;'>
                    <iframe src='data:text/html;base64,{base64_dok}' width='100%' height='100%' style='min-width:100%;min-height:750px;display:flex;flex-grow:1;'/>
                </div>

            </div>")
        }
        PopoverState::Configuration(cw) => {
            let img_settings = &a.icon_settings;
            let img_clean = &a.icon_clean;
            let img_save = &a.icon_save;
            let img_load = &a.icon_load;
            let active_allgemein = if *cw == ConfigurationView::Allgemein { " active" } else { "" };
            let active_darstellung_pdf = if *cw == ConfigurationView::DarstellungPdf { " active" } else { "" };
            let active_darstellung_bearbeitung = if *cw == ConfigurationView::DarstellungBearbeitung { " active" } else { "" };
            let active_darstellung_pdf_allgemein = if *cw == ConfigurationView::DarstellungPdfAllgemein { " active" } else { "" };
            let active_pdf_beschriftungen = if *cw == ConfigurationView::PdfBeschriftungen { " active" } else { "" };
            let active_pdf_symbole = if *cw == ConfigurationView::PdfSymbole { " active" } else { "" };
            let sidebar = format!("
                <div class='__application_configuration_sidebar' style='display:flex;flex-direction:column;width:160px;min-height:750px;'>
                    
                    <div class='__application_configuration_sidebar_section{active_allgemein}' onmouseup='activateConfigurationView(event, \"allgemein\")'>
                        <img style='width:25px;height:25px;' src='data:image/png;base64,{img_settings}'></img>
                        <p>Allgemein</p>
                    </div>
                    
                    <hr/>
                    
                    <div class='__application_configuration_sidebar_section{active_darstellung_bearbeitung}' onmouseup='activateConfigurationView(event, \"darstellung-bearbeitung\")'>
                        <img style='width:25px;height:25px;' src='data:image/png;base64,{img_clean}'></img>
                        <p>Bearbeitung</p>
                    </div>

                    <div class='__application_configuration_sidebar_section{active_darstellung_pdf_allgemein}' onmouseup='activateConfigurationView(event, \"darstellung-pdf-allgemein\")'>
                        <img style='width:25px;height:25px;' src='data:image/png;base64,{img_clean}'></img>
                        <p>PDF Allgemein</p>
                    </div>

                    <div class='__application_configuration_sidebar_section{active_darstellung_pdf}' onmouseup='activateConfigurationView(event, \"darstellung-pdf\")'>
                        <img style='width:25px;height:25px;' src='data:image/png;base64,{img_clean}'></img>
                        <p>PDF Ebenen</p>
                    </div>

                    <div class='__application_configuration_sidebar_section{active_pdf_beschriftungen}' onmouseup='activateConfigurationView(event, \"pdf-beschriftungen\")'>
                        <img style='width:25px;height:25px;' src='data:image/png;base64,{img_clean}'></img>
                        <p>PDF Beschriftungen</p>
                    </div>

                    <div class='__application_configuration_sidebar_section{active_pdf_symbole}' onmouseup='activateConfigurationView(event, \"pdf-symbole\")'>
                        <img style='width:25px;height:25px;' src='data:image/png;base64,{img_clean}'></img>
                        <p>PDF Symbole</p>
                    </div>

                    <div style='display:flex;min-height:50px;'></div>
                    <div class='__application_configuration_sidebar_section' onmouseup='loadSettings();'>
                        <img style='width:25px;height:25px;' src='data:image/png;base64,{img_load}'></img>
                        <p>Einstellungen laden</p>
                    </div>
                    <div class='__application_configuration_sidebar_section' onmouseup='saveSettings();'>
                        <img style='width:25px;height:25px;' src='data:image/png;base64,{img_save}'></img>
                        <p>Einstellungen speichern</p>
                    </div>
                </div>
            ");
            let main_content = match cw {
                ConfigurationView::Allgemein => format!("
                    <div style='padding:5px 0px;display:flex;flex-direction:column;flex-grow:1;'>
                        <div>
                            <h2 style='font-size:20px;'>Allgemein</h2>
                            
                            <div style='display:flex;justify-content:space-between;padding:10px 0px;font-size:16px;'>
                                <label style='font-size:20px;font-style:italic;'>Basiskarte</label>
                                <input type='text' class='konfiguration-editfield1' value='{basiskarte}' data-konfiguration-textfield='map-basiskarte' onchange='editKonfigurationTextField(event)'></input>
                            </div>
                    
                            <div style='display:flex;justify-content:space-between;padding:10px 0px;font-size:16px;'>
                                <label style='font-size:20px;font-style:italic;'>DOP Quelle</label>
                                <input type='text' class='konfiguration-editfield1' value='{dop_source}' data-konfiguration-textfield='map-dop-source' onchange='editKonfigurationTextField(event)'></input>
                            </div>

                            <div style='display:flex;justify-content:space-between;padding:10px 0px;font-size:16px;'>
                                <label style='font-size:20px;font-style:italic;'>DOP Ebene</label>
                                <input type='text' class='konfiguration-editfield1' value='{dop_layer}' data-konfiguration-textfield='map-dop-layer' onchange='editKonfigurationTextField(event)'></input>
                            </div>

                            <div style='display:flex;justify-content:space-between;padding:10px 0px;font-size:16px;'>
                                <label style='font-size:20px;font-style:italic;'>DGM Quelle</label>
                                <input type='text' class='konfiguration-editfield1' value='{dgm_source}' data-konfiguration-textfield='map-dgm-source' onchange='editKonfigurationTextField(event)'></input>
                            </div>

                            <div style='display:flex;justify-content:space-between;padding:10px 0px;font-size:16px;'>
                                <label style='font-size:20px;font-style:italic;'>DGM Ebene</label>
                                <input type='text' class='konfiguration-editfield1' value='{dgm_layer}' data-konfiguration-textfield='map-dgm-layer' onchange='editKonfigurationTextField(event)'></input>
                            </div>
                        </div>
                    </div>
                ",
                    basiskarte = konfiguration.map.basemap.clone().unwrap_or_default().trim(),
                    dop_source = konfiguration.map.dop_source.clone().unwrap_or_default().trim(),
                    dop_layer = konfiguration.map.dop_layers.clone().unwrap_or_default().trim(),
                    dgm_source = konfiguration.map.dgm_source.clone().unwrap_or_default().trim(),
                    dgm_layer = konfiguration.map.dgm_layers.clone().unwrap_or_default().trim(),
                ),
                ConfigurationView::DarstellungBearbeitung => {
                    let sorted = konfiguration.style.ebenen_ordnung.iter().filter_map(|s| konfiguration.style.ebenen.get(s).map(|q| (s.clone(), q))).collect::<Vec<_>>();
                    format!("
                        <div style='padding:5px 0px;display:flex;flex-direction:column;flex-grow:1;'>
                            <div>
                                <h2 style='font-size:20px;'>Bearbeitung</h2>
                                
                                <button onclick='konfigurationLayerNeu(event)' data-konfiguration-type='style' style='display: flex;width: 100%;margin-bottom: 10px;margin-top: 10px;cursor: pointer;background: #d1e9d7;padding: 10px;border-radius: 5px;'>Neue Ebene anlegen</button>
                                
                                <div style='max-height:500px;overflow-y:scroll'>
                                {edit_fields_bearbeitung}
                                </div>
                            </div>
                        </div>
                    ", edit_fields_bearbeitung = sorted.iter().map(|(k, v)| {
                        format!("
                            <div style='padding:10px;margin-bottom:5px;background:#cccccc;'>
                                <div style='display: flex;flex-direction: row;justify-content: flex-end;'>
                                    <input type='text' class='konfiguration-editfield1' value='{name}' data-konfiguration-style-id='{k}' data-konfiguration-textfield='map-style-name' onchange='editKonfigurationTextField(event)' style='flex-grow:1;'></input>
                                    <button onclick='moveOrDeleteKonfigurationField(event);' data-move-type='move-up' data-konfiguration-type='style' data-konfiguration-style-id='{k}' style='padding: 2px 5px;margin-left: 5px;cursor: pointer;border-radius: 3px;'>^ Layer anheben</button>
                                    <button onclick='moveOrDeleteKonfigurationField(event);' data-move-type='move-down'  data-konfiguration-type='style' data-konfiguration-style-id='{k}' style='padding: 2px 5px;margin-left: 5px;cursor: pointer;border-radius: 3px;'>v Layer absenken</button>
                                    <button onclick='moveOrDeleteKonfigurationField(event);' data-move-type='delete' data-konfiguration-type='style' data-konfiguration-style-id='{k}' style='padding: 2px 5px;margin-left: 5px;cursor: pointer;border-radius: 3px;'>Layer löschen</button>
                                </div>
                                <div style='display:flex;justify-content:space-between;padding:10px 0px;font-size:16px;'>
                                    <label style='font-size:12px;font-style:italic;'>Füllung</label>
                                    <input type='color' class='konfiguration-editfield1' value='{fill_color}' data-konfiguration-style-id='{k}' data-konfiguration-textfield='map-style-fillcolor' onchange='editKonfigurationTextField(event)'></input>
                                </div>
                                <div style='display:flex;justify-content:space-between;padding:10px 0px;font-size:16px;'>
                                    <label style='font-size:12px;font-style:italic;'>Umrandung</label>
                                    <input type='color' class='konfiguration-editfield1' value='{outline_color}' data-konfiguration-style-id='{k}' data-konfiguration-textfield='map-style-outlinecolor' onchange='editKonfigurationTextField(event)'></input>
                                </div>
                                <div style='display:flex;justify-content:space-between;padding:10px 0px;font-size:16px;'>
                                    <label style='font-size:12px;font-style:italic;'>Umrandung</label>
                                    <input type='number' class='konfiguration-editfield1' value='{outline_thickness}' minval='0' maxval='10' data-konfiguration-style-id='{k}' data-konfiguration-textfield='map-style-outlinethickness' onchange='editKonfigurationTextField(event)'></input>
                                </div>
                            </div>
                            ",
                            name = v.name.trim(),
                            fill_color = v.fill_color.clone().unwrap_or("#000000".to_string()),
                            outline_color = v.outline_color.clone().unwrap_or("#000000".to_string()),
                            outline_thickness = v.outline_thickness.clone().unwrap_or("0".to_string()),
                        )
                    }).collect::<Vec<_>>().join(""))
                }
                ConfigurationView::DarstellungPdf => {
                    let sorted = konfiguration.pdf.layer_ordnung.iter().filter_map(|s| konfiguration.pdf.nutzungsarten.get(s).map(|q| (s.clone(), q))).collect::<Vec<_>>();
                    format!("
                        <div style='padding:5px 0px;display:flex;flex-direction:column;flex-grow:1;'>
                            <div>
                                <h2 style='font-size:20px;'>PDF Ebenen</h2>
                                
                                <!-- NORDPFEIL SVG ... -->

                                <button onclick='konfigurationLayerNeu(event)' data-konfiguration-type='pdf-nutzungsarten' style='display: flex;width: 100%;margin-bottom: 10px;margin-top: 10px;cursor: pointer;background: #d1e9d7;padding: 10px;border-radius: 5px;'>Neue Ebene anlegen</button>

                                <button onclick='konfigurationLayerAlle(event)' data-konfiguration-type='style' style='display: flex;width: 100%;margin-bottom: 10px;margin-top: 10px;cursor: pointer;background: #d1e9d7;padding: 10px;border-radius: 5px;'>Alle sichtbaren Kürzel übernehmen</button>

                                <div style='max-height:500px;overflow-y:scroll'>
                                {edit_fields_pdf}
                                </div>
                                
                            </div>
                        </div>
                    ", edit_fields_pdf = sorted.iter().map(|(k, v)| {
                        format!("
                            <div style='padding:10px;margin-bottom:5px;background:#cccccc;'>
                                <div style='display: flex;flex-direction: row;justify-content: flex-end;'>
                                    <input type='text' class='konfiguration-editfield1' value='{name}' data-konfiguration-style-id='{k}' data-konfiguration-textfield='map-pdf-nutzungsart-name' onchange='editKonfigurationTextField(event)' style='flex-grow:1;'></input>
                                    <button onclick='moveOrDeleteKonfigurationField(event);' data-move-type='move-up'  data-konfiguration-type='pdf-nutzungsarten' data-konfiguration-style-id='{k}' style='padding: 2px 5px;margin-left: 5px;cursor: pointer;border-radius: 3px;'>^ Layer anheben</button>
                                    <button onclick='moveOrDeleteKonfigurationField(event);' data-move-type='move-down'  data-konfiguration-type='pdf-nutzungsarten' data-konfiguration-style-id='{k}' style='padding: 2px 5px;margin-left: 5px;cursor: pointer;border-radius: 3px;'>v Layer absenken</button>
                                    <button onclick='moveOrDeleteKonfigurationField(event);' data-move-type='delete'  data-konfiguration-type='pdf-nutzungsarten' data-konfiguration-style-id='{k}' style='padding: 2px 5px;margin-left: 5px;cursor: pointer;border-radius: 3px;'>Layer löschen</button>
                                </div>
                                <div style='display:flex;justify-content:space-between;padding:10px 0px;font-size:16px;'>
                                    <label style='font-size:12px;font-style:italic;'>Füllung</label>
                                    <input type='color' class='konfiguration-editfield1' value='{fill_color}' data-konfiguration-style-id='{k}' data-konfiguration-textfield='map-pdf-nutzungsart-fillcolor' onchange='editKonfigurationTextField(event)'></input>
                                </div>
                                <div style='display:flex;justify-content:space-between;padding:10px 0px;font-size:16px;'>
                                    <label style='font-size:12px;font-style:italic;'>Umrandung</label>
                                    <input type='color' class='konfiguration-editfield1' value='{outline_color}' data-konfiguration-style-id='{k}' data-konfiguration-textfield='map-pdf-nutzungsart-outlinecolor' onchange='editKonfigurationTextField(event)'></input>
                                </div>
                                <div style='display:flex;justify-content:space-between;padding:10px 0px;font-size:16px;'>
                                    <label style='font-size:12px;font-style:italic;'>Umrandung</label>
                                    <input type='number' class='konfiguration-editfield1' value='{outline_thickness}' minval='0' maxval='10' data-konfiguration-style-id='{k}' data-konfiguration-textfield='map-pdf-nutzungsart-outlinethickness' onchange='editKonfigurationTextField(event)'></input>
                                </div>
                                <div style='display:flex;justify-content:space-between;padding:10px 0px;font-size:16px;'>
                                    <label style='font-size:12px;font-style:italic;'>Strichelung Umrandung</label>
                                    <input type='text' class='konfiguration-editfield1' value='{outline_dash}' data-konfiguration-style-id='{k}' data-konfiguration-textfield='map-pdf-nutzungsart-outlinedash' onchange='editKonfigurationTextField(event)'></input>
                                </div>
                                <div style='display:flex;justify-content:space-between;padding:10px 0px;font-size:16px;'>
                                    <label style='font-size:12px;font-style:italic;'>Umrandung überdrucken (Overprint)</label>
                                    <input type='checkbox' {outline_overprint} class='konfiguration-editfield1' data-konfiguration-style-id='{k}' data-konfiguration-textfield='map-pdf-nutzungsart-outline-overprint' onchange='editKonfigurationTextField(event)'></input>
                                </div>

                                <div style='display:flex;justify-content:space-between;padding:10px 0px;font-size:16px;'>
                                    <label style='font-size:12px;font-style:italic;'>Muster</label>
                                    <input id='__application_pdf_nutzungsart_pattern_{k}' type='hidden' style='display:none;' onchange='editKonfigurationTextField(event)' data-konfiguration-textfield='map-pdf-nutzungsart-pattern-svg' data-konfiguration-style-id='{k}' value='{pattern_svg}'></input>
                                    <input type='file' accept='.svg' style='display:flex;' class='konfiguration-editfield1' data-konfiguration-style-id='{k}' data-konfiguration-textfield='map-pdf-nutzungsart-pattern-svg' onchange='editKonfigurationInputFile(event)'></input>
                                </div>
                                
                                <div style='display:flex;justify-content:space-between;padding:10px 0px;font-size:16px;'>
                                    <label style='font-size:12px;font-style:italic;'>Platzierung Muster</label>
                                    <select value='{pattern_placement}' style='display:flex;flex-grow:1;max-width:300px;' data-konfiguration-style-id='{k}' data-konfiguration-textfield='map-pdf-nutzungsart-pattern-type' onchange='editKonfigurationTextField(event)'>
                                        {pattern_type_select_options}
                                    </select>
                                </div>

                                <div style='display:flex;justify-content:space-between;padding:10px 0px;font-size:16px;'>
                                    <label style='font-size:12px;font-style:italic;'>Beschriftung Schrift</label>
                                    <input type='text' class='konfiguration-editfield1' value='{beschriftung_schriftart}' data-konfiguration-style-id='{k}' data-konfiguration-textfield='map-pdf-nutzungsart-beschriftung-schriftart' onchange='editKonfigurationTextField(event)'></input>
                                </div>

                                <div style='display:flex;justify-content:space-between;padding:10px 0px;font-size:16px;'>
                                    <label style='font-size:12px;font-style:italic;'>Beschriftung Schriftgröße</label>
                                    <input type='number' class='konfiguration-editfield1' value='{beschriftung_schriftgroesse}' data-konfiguration-style-id='{k}' minval='0' maxval='50' data-konfiguration-textfield='map-pdf-nutzungsart-beschriftung-schriftgroesse' onchange='editKonfigurationTextField(event)'></input>
                                </div>

                                <div style='display:flex;justify-content:space-between;padding:10px 0px;font-size:16px;'>
                                    <label style='font-size:12px;font-style:italic;'>Beschriftung Schrift</label>
                                    <input type='color' class='konfiguration-editfield1' value='{beschriftung_schriftfarbe}' data-konfiguration-style-id='{k}' data-konfiguration-textfield='map-pdf-nutzungsart-beschriftung-schriftfarbe' onchange='editKonfigurationTextField(event)'></input>
                                </div>
                            </div>
                            ",
                            k = k,
                            name = v.kuerzel.clone(),
                            fill_color = v.fill_color.clone().unwrap_or("#000000".to_string()),
                            outline_color = v.outline_color.clone().unwrap_or("#000000".to_string()),
                            outline_thickness = v.outline_thickness.clone().unwrap_or("0".to_string()),
                            outline_dash = v.outline_dash.clone().unwrap_or_default(),
                            outline_overprint = if v.outline_overprint { "checked='checked'" } else { "" },
                            pattern_svg = v.pattern_svg.clone().unwrap_or_default(),
                            pattern_placement = v.pattern_placement.clone().unwrap_or_default(),
                            pattern_type_select_options = {
                                vec![
                                    ("none", "Kein Muster"),
                                    ("mitte", "mittig platzieren"),
                                    ("pattern", "Wiederholen (kein Versatz)"),
                                    ("pattern-alternate", "Mit Versatz wiederholen"),
                                ].iter().map(|(k, v)| format!("<option value='{k}'>{v}</option>")).collect::<Vec<_>>().join("")
                            },
                            beschriftung_schriftart = v.lagebez_ohne_hsnr.font.clone().unwrap_or_default(),
                            beschriftung_schriftgroesse = v.lagebez_ohne_hsnr.fontsize.clone().unwrap_or("0".to_string()),
                            beschriftung_schriftfarbe = v.lagebez_ohne_hsnr.color.clone().unwrap_or("#000000".to_string()),
                        )
                    }).collect::<Vec<_>>().join(""))
                }
                ConfigurationView::DarstellungPdfAllgemein => format!("
                        <div style='padding:5px 0px;display:flex;flex-direction:column;flex-grow:1;'>
                            <div>
                                <h2 style='font-size:20px;'>PDF Allgemein</h2>
                                
                                <div style='display:flex;justify-content:space-between;padding:10px 0px;font-size:16px;'>
                                    <label style='font-size:12px;font-style:italic;'>SVG Grenzpunkt</label>
                                    <input id='__application_pdf_nutzungsart_pattern_svg_grenzpunkt' type='hidden' style='display:none;' onchange='editKonfigurationTextField(event)' data-konfiguration-textfield='map-pdf-svg-grenzpunkt' data-konfiguration-style-id='svg_grenzpunkt' value='{grenzpunkt_svg}'></input>
                                    <input type='file' accept='.svg' style='display:flex;' class='konfiguration-editfield1' data-konfiguration-style-id='svg_grenzpunkt' data-konfiguration-textfield='map-pdf-nutzungsart-pattern-svg' onchange='editKonfigurationInputFile(event)'></input>
                                </div>

                                <div style='display:flex;justify-content:space-between;padding:10px 0px;font-size:16px;'>
                                    <label style='font-size:12px;font-style:italic;'>SVG Pfeil</label>
                                    <input id='__application_pdf_nutzungsart_pattern_svg_pfeil' type='hidden' style='display:none;' onchange='editKonfigurationTextField(event)' data-konfiguration-textfield='map-pdf-svg-pfeil' data-konfiguration-style-id='svg_pfeil' value='{pfeil_svg}'></input>
                                    <input type='file' accept='.svg' style='display:flex;' class='konfiguration-editfield1' data-konfiguration-style-id='svg_pfeil' data-konfiguration-textfield='map-pdf-nutzungsart-pattern-svg' onchange='editKonfigurationInputFile(event)'></input>
                                </div>

                                <div style='display:flex;justify-content:space-between;padding:10px 0px;font-size:16px;'>
                                    <label style='font-size:12px;font-style:italic;'>SVG Nordpfeil</label>
                                    <input id='__application_pdf_nutzungsart_pattern_svg_nordpfeil' type='hidden' style='display:none;' onchange='editKonfigurationTextField(event)' data-konfiguration-textfield='map-pdf-svg-nordpfeil' data-konfiguration-style-id='svg_nordpfeil' value='{nordpfeil_svg}'></input>
                                    <input type='file' accept='.svg' style='display:flex;' class='konfiguration-editfield1' data-konfiguration-style-id='svg_nordpfeil' data-konfiguration-textfield='map-pdf-nutzungsart-pattern-svg' onchange='editKonfigurationInputFile(event)'></input>
                                </div>

                                <div style='display:flex;justify-content:space-between;padding:10px 0px;font-size:16px;'>
                                    <label style='font-size:12px;font-style:italic;'>SVG Gebäude löschen</label>
                                    <input id='__application_pdf_nutzungsart_pattern_svg_gebaeude_loeschen' type='hidden' style='display:none;' onchange='editKonfigurationTextField(event)' data-konfiguration-textfield='map-pdf-svg-gebaeude-loeschen' data-konfiguration-style-id='svg_gebaeude_loeschen' value='{gebaeude_loeschen_svg}'></input>
                                    <input type='file' accept='.svg' style='display:flex;' class='konfiguration-editfield1' data-konfiguration-style-id='svg_gebaeude_loeschen' data-konfiguration-textfield='map-pdf-nutzungsart-pattern-svg' onchange='editKonfigurationInputFile(event)'></input>
                                </div>
                            </div>
                        </div>
                    ",
                    grenzpunkt_svg = konfiguration.pdf.grenzpunkt_svg.clone().unwrap_or_default(),
                    pfeil_svg = konfiguration.pdf.pfeil_svg.clone().unwrap_or_default(),
                    nordpfeil_svg = konfiguration.pdf.nordpfeil_svg.clone().unwrap_or_default(),
                    gebaeude_loeschen_svg = konfiguration.pdf.gebauede_loeschen_svg.clone().unwrap_or_default(),
                ),
                ConfigurationView::PdfBeschriftungen => format!("
                        <div style='padding:5px 0px;display:flex;flex-direction:column;flex-grow:1;'>
                            <div>
                                <h2 style='font-size:20px;'>PDF Beschriftungen</h2>
                                
                            </div>
                        </div>
                    "),
                ConfigurationView::PdfSymbole => format!("
                        <div style='padding:5px 0px;display:flex;flex-direction:column;flex-grow:1;'>
                            <div>
                                <h2 style='font-size:20px;'>PDF Symbole</h2>
                                
                            </div>
                        </div>
                    "),
            };
            let main = format!("<div style='display:flex;flex-grow:1;padding:0px 20px;line-height: 1.2;'>{main_content}</div>");
            format!("
                <div style='box-shadow:0px 0px 100px #22222288;pointer-events:initial;width:1000px;position:relative;display:flex;flex-direction:column;margin:10px auto;border:1px solid grey;background:white;padding:100px;border-radius:5px;' onmousedown='event.stopPropagation();' onmouseup='event.stopPropagation();'>
                
                    {close_button}
                    
                    <h2 style='font-size:24px;margin-bottom:15px;font-family:sans-serif;'>Konfiguration</h2>

                    <div style='display:flex;flex-direction:row;flex-grow:1;width:100%;'>
                        {sidebar}
                        {main}
                    </div>
                </div>
            ")
        }
        PopoverState::ContextMenu(cm) => format!("
                <div style='pointer-events:unset;padding:1px;position:absolute;left:{}px;top:{}px;background:white;border-radius:5px;box-shadow:0px 0px 5px #444;'>
                    <div style='border:1px solid #efefef;border-radius:5px;'>
                        <p style='padding:5px 10px;font-size:10px;color:#444;margin-bottom:5px;'>Klassifiziere Seite als...</p>
                        <div style='line-height:1.5;cursor:pointer;'>
                            <div class='kontextmenü-eintrag' data-seite-neu='bv-horz' data-seite='{seite}' onmousedown='klassifiziereSeiteNeu(event);'>
                                Bestandsverzeichnis (Querformat)
                            </div>
                        </div>
                    </div>
                </div>", cm.x, cm.y, seite = 0),
    };
    let pc = format!("
        <div style='background:{application_popover_color};width: 100%;height: 100%;min-height: 100%;z-index:1001;pointer-events:all;{overflow}' onmouseup='closePopOver()'>
            {pc}
        </div>",
        overflow = if is_context_menu_open { "" } else { "overflow:auto;" },
        application_popover_color = application_popover_color,
        pc = pc,
    );
    normalize_for_js(pc)
}

fn check(state: Option<PopoverState>) {
    let k = konfiguration();
    let a = assets();
    let want = expected(&state, &k, &a);
    assert_eq!(render_popover_content(&ui(state), &k, &a), want);
}

#[test]
fn no_popover_renders_nothing() {
    assert_eq!(render_popover_content(&ui(None), &konfiguration(), &assets()), "");
}

#[test]
fn info_popover() {
    check(Some(PopoverState::Info));
    let s = render_popover_content(&ui(Some(PopoverState::Info)), &konfiguration(), &assets());
    assert!(s.contains("Digitales Projekt Version 1.2.3"));
    assert!(s.contains("data:text/html;base64,TElDRU5TRQ=="));
    assert!(s.contains("background:rgba(0, 0, 0, 0.5)"));
    assert!(!s.contains('\n'));
}

#[test]
fn help_popover() {
    check(Some(PopoverState::Help));
}

#[test]
fn settings_pages() {
    for cw in [
        ConfigurationView::Allgemein,
        ConfigurationView::DarstellungBearbeitung,
        ConfigurationView::DarstellungPdf,
        ConfigurationView::DarstellungPdfAllgemein,
        ConfigurationView::PdfBeschriftungen,
        ConfigurationView::PdfSymbole,
    ] {
        check(Some(PopoverState::Configuration(cw)));
    }
}

#[test]
fn settings_show_the_values() {
    let k = konfiguration();
    let a = assets();
    let s = render_popover_content(&ui(Some(PopoverState::Configuration(ConfigurationView::Allgemein))), &k, &a);
    assert!(s.contains("value='https://karte'"));
    assert!(s.contains("__application_configuration_sidebar_section active'"));
    let s = render_popover_content(&ui(Some(PopoverState::Configuration(ConfigurationView::DarstellungBearbeitung))), &k, &a);
    let wasser = s.find("value='Wasser'").unwrap();
    let wald = s.find("value='Wald'").unwrap();
    assert!(wasser < wald);
    assert!(s.contains("value='0.5'"));
    let s = render_popover_content(&ui(Some(PopoverState::Configuration(ConfigurationView::DarstellungPdf))), &k, &a);
    assert!(s.contains("checked='checked'"));
    assert!(s.contains("<option value='pattern-alternate'>Mit Versatz wiederholen</option>"));
}

#[test]
fn context_menu_at_its_position() {
    let cm = ContextMenuData { x: "120.5".to_string(), y: "80".to_string() };
    check(Some(PopoverState::ContextMenu(ContextMenuData { x: cm.x.clone(), y: cm.y.clone() })));
    let s = render_popover_content(&ui(Some(PopoverState::ContextMenu(cm))), &konfiguration(), &assets());
    assert!(s.contains("left:120.5px;top:80px;"));
    assert!(s.contains("background:transparent"));
    assert!(!s.contains("overflow:auto;"));
}

#[test]
fn default_pdf_styles() {
    let g = PdfEbenenStyle::default_grau("WALD", true);
    assert_eq!(g.kuerzel, "WALD");
    assert_eq!(g.outline_color, Some("#ff0000".to_string()));
    assert_eq!(g.outline_thickness, Some("0.1".to_string()));
    assert!(!g.fill);
    assert_eq!(PdfEbenenStyle::default_grau("GR", false).outline_color, Some("#6082B6".to_string()));
    let d = PdfEbenenStyle::default();
    assert_eq!(d.fill_color, Some("#000000".to_string()));
    assert!(d.fill);
    assert_eq!(d.kuerzel, "");
    assert_eq!(PtoStil::default(), PtoStil { art: String::new(), fontsize: None, font: None, color: None });
}

#[test]
fn context_menu_open_only_for_the_menu() {
    let cm = ContextMenuData { x: "1".to_string(), y: "2".to_string() };
    assert!(ui(Some(PopoverState::ContextMenu(cm))).is_context_menu_open());
    assert!(!ui(Some(PopoverState::Info)).is_context_menu_open());
    assert!(!ui(None).is_context_menu_open());
}
