use tnviewer::ribbon::{render_ribbon, RibbonIcons};
use tnviewer::ui::{normalize_for_js, Tool};

fn icons() -> RibbonIcons {
    RibbonIcons {
        open: "ICON_OPEN_BASE64".to_string(),
        neu: "ICON_NEU_BASE64".to_string(),
        back: "ICON_BACK_BASE64".to_string(),
        forward: "ICON_FORWARD_BASE64".to_string(),
        xml: "ICON_XML_BASE64".to_string(),
        save: "ICON_SAVE_BASE64".to_string(),
        settings: "ICON_SETTINGS_BASE64".to_string(),
        help: "ICON_HELP_BASE64".to_string(),
        info: "ICON_INFO_BASE64".to_string(),
        house: "ICON_HOUSE_BASE64".to_string(),
        transfer: "ICON_TRANSFER_BASE64".to_string(),
        geograf: "ICON_GEOGRAF_BASE64".to_string(),
        log: "ICON_LOG_BASE64".to_string(),
        georg: "ICON_GEORG_BASE64".to_string(),
        david: "ICON_DAVID_BASE64".to_string(),
        broom: "ICON_EXPORT_LEFIS".to_string(),
    }
}

/// The ribbon as the viewer writes it, with the icons given as names.
fn expected(tab: usize, tool: Option<Tool>) -> String {
    let icon_open_base64 = "ICON_OPEN_BASE64";
    let icon_neu_base64 = "ICON_NEU_BASE64";
    let icon_back_base64 = "ICON_BACK_BASE64";
    let icon_forward_base64 = "ICON_FORWARD_BASE64";
    let icon_xml_base64 = "ICON_XML_BASE64";
    let icon_save_base64 = "ICON_SAVE_BASE64";
    let icon_settings_base64 = "ICON_SETTINGS_BASE64";
    let icon_help_base64 = "ICON_HELP_BASE64";
    let icon_info_base64 = "ICON_INFO_BASE64";
    let icon_house_base64 = "ICON_HOUSE_BASE64";
    let icon_transfer_base64 = "ICON_TRANSFER_BASE64";
    let icon_geograf_base64 = "ICON_GEOGRAF_BASE64";
    let icon_log_base64 = "ICON_LOG_BASE64";
    let icon_georg_base64 = "ICON_GEORG_BASE64";
    let icon_david_base64 = "ICON_DAVID_BASE64";
    let icon_export_lefis = "ICON_EXPORT_LEFIS";
    let disabled = "";

    let projekt_oeffnen = {
        format!("
        <div class='__application-ribbon-section-content'>
            <label onmouseup='tab_functions.load_project(event)' class='__application-ribbon-action-vertical-large'>
                <div class='icon-wrapper'>
                    <img class='icon' src='data:image/png;base64,{icon_open_base64}'>
                </div>
                <div>
                    <p>Projekt</p>
                    <p>laden</p>
                </div>
            </label>
        </div>
        ")
    };

    let neues_projekt = {
        format!("
        <div class='__application-ribbon-section-content'>
                <label onmouseup='tab_functions.create_project(event)' class='__application-ribbon-action-vertical-large'>
                    <div class='icon-wrapper'>
                        <img class='icon' src='data:image/png;base64,{icon_neu_base64}'>
                    </div>
                    <div>
                        <p>Projekt</p>
                        <p>aus CSV</p>
                    </div>
                </label>
            </div>
        ")
    };

    let zurueck = {
        format!("
        <div class='__application-ribbon-section-content'>
            <label onmouseup='tab_functions.undo(event)' class='__application-ribbon-action-vertical-large'>
                <div class='icon-wrapper'>
                    <img class='icon {disabled}' src='data:image/png;base64,{icon_back_base64}'>
                </div>
                <div>
                    <p>Zurück</p>
                    <p>&nbsp;</p>
                </div>
            </label>
        </div>
        ")
    };

    let vorwaerts = {
        format!("
        <div class='__application-ribbon-section-content'>
            <label onmouseup='tab_functions.redo(event)' class='__application-ribbon-action-vertical-large'>
                <div class='icon-wrapper'>
                    <img class='icon {disabled}' src='data:image/png;base64,{icon_forward_base64}'>
                </div>
                <div>
                    <p>Vorwärts</p>
                    <p>&nbsp;</p>
                </div>
            </label>
        </div>
        ")
    };

    let daten_importieren = {
        format!("
        <div class='__application-ribbon-section-content'>
            <label onmouseup='tab_functions.import_data(event)' class='__application-ribbon-action-vertical-large'>
                <div class='icon-wrapper'>
                    <img class='icon' src='data:image/png;base64,{icon_xml_base64}'>
                </div>
                <div>
                    <p>NAS-Daten</p>
                    <p>importieren</p>
                </div>
            </label>
        </div>   
        ")
    };

    let projekt_speichern = {
        format!("
        <div class='__application-ribbon-section-content'>
            <label onmouseup='tab_functions.save_project(event)' class='__application-ribbon-action-vertical-large'>
                <div class='icon-wrapper'>
                    <img class='icon {disabled}' src='data:image/png;base64,{icon_save_base64}'>
                </div>
                <div>
                    <p>Änderungen</p>
                    <p>speichern</p>
                </div>
            </label>
        </div>
        ")
    };

    let einstellungen = {
        format!("
        <div class='__application-ribbon-section-content'>
            <label onmouseup='tab_functions.open_configuration(event);' class='__application-ribbon-action-vertical-large'>
                <div class='icon-wrapper'>
                    <img class='icon' src='data:image/png;base64,{icon_settings_base64}'>
                </div>
                <div>
                    <p>Einstellungen</p>
                    <p>bearbeiten</p>
                </div>
            </label>
        </div>
        ")
    };

    let hilfe = {
        format!("
        <div class='__application-ribbon-section-content'>
            <label onmouseup='tab_functions.open_help(event);' class='__application-ribbon-action-vertical-large'>
                <div class='icon-wrapper'>
                    <img class='icon' src='data:image/png;base64,{icon_help_base64}'>
                </div>
                <div>
                    <p>Hilfe</p>
                    <p>&nbsp;</p>
                </div>
            </label>
        </div>    
        ")
    };

    let info = {
        format!("
        <div class='__application-ribbon-section-content'>
            <label onmouseup='tab_functions.open_info(event);' class='__application-ribbon-action-vertical-large'>
                <div class='icon-wrapper'>
                    <img class='icon' src='data:image/png;base64,{icon_info_base64}'>
                </div>
                <div>
                    <p>Info</p>
                    <p>&nbsp;</p>
                </div>
            </label>
        </div>
        ")
    };


    let gebaeude_loeschen = {
        format!("
            <div class='__application-ribbon-section-content'>
                <label onmouseup='tab_functions.gebaeude_loeschen(event)' class='__application-ribbon-action-vertical-large' style='{active}'>
                    <div class='icon-wrapper'>
                        <img class='icon {disabled}' src='data:image/png;base64,{icon_house_base64}'>
                    </div>
                    <div>
                        <p>Gebäude</p>
                        <p>löschen</p>
                    </div>
                </label>
            </div>
        ", active = match tool {
            Some(Tool::GebaeudeLoeschen) => "background:red !important;color:white !important;",
            _ => "",
        })
    };

    let nutzung_einzeichnen = {
        format!("
            <div class='__application-ribbon-section-content'>
                <label onmouseup='tab_functions.nutzung_einzeichnen(event)' class='__application-ribbon-action-vertical-large' style='{active}'>
                    <div class='icon-wrapper'>
                        <img class='icon {disabled}' src='data:image/png;base64,{icon_transfer_base64}'>
                    </div>
                    <div>
                        <p>Nutzung</p>
                        <p>einzeichnen</p>
                    </div>
                </label>
            </div>
        ", active = match tool {
            Some(Tool::NutzungEinzeichnen) => "background:red !important;color:white !important;",
            _ => "",
        })
    };


    let export_geograf = {
        format!("
        <div class='__application-ribbon-section-content'>
            <label onmouseup='tab_functions.export_geograf(event)' class='__application-ribbon-action-vertical-large'>
                <div class='icon-wrapper'>
                    <img class='icon {disabled}' src='data:image/png;base64,{icon_geograf_base64}'>
                </div>
                <div>
                    <p>Export</p>
                    <p>GEOgraf</p>
                </div>
            </label>
        </div>   
        ")
    };

    let export_log = {
        format!(
            "
        <div class='__application-ribbon-section-content'>
            <label onmouseup='exportLog();' class='__application-ribbon-action-vertical-large'>
                <div class='icon-wrapper'>
                    <img class='icon {disabled}' src='data:image/png;base64,{icon_log_base64}'>
                </div>
                <div>
                    <p>Log-Datei</p>
                    <p>speichern</p>
                </div>
            </label>
        </div>   
        "
        )
    };

    let export_alle_flurstuecke = {
        format!("
            <div class='__application-ribbon-section-content'>
                <label onmouseup='tab_functions.export_alle_flst(event)' class='__application-ribbon-action-vertical-large'>
                    <div class='icon-wrapper'>
                        <img class='icon {disabled}' src='data:image/png;base64,{icon_georg_base64}'>
                    </div>
                    <div>
                        <p>Export</p>
                        <p>Georg</p>
                    </div>
                </label>
            </div>
        ")
    };

    let export_david = {
        format!("
            <div class='__application-ribbon-section-content'>
                <label onmouseup='tab_functions.export_david(event)' class='__application-ribbon-action-vertical-large'>
                    <div class='icon-wrapper'>
                        <img class='icon {disabled}' src='data:image/png;base64,{icon_david_base64}'>
                    </div>
                    <div>
                        <p>Export</p>
                        <p>DAVID</p>
                    </div>
                </label>
            </div>
        ")
    };


    let export_nas_xml = {
        format!("
            <div class='__application-ribbon-section-content'>
                <label onmouseup='tab_functions.export_nas_xml(event)' class='__application-ribbon-action-vertical-large'>
                    <div class='icon-wrapper'>
                        <img class='icon {disabled}' src='data:image/png;base64,{icon_xml_base64}'>
                    </div>
                    <div>
                        <p>Export</p>
                        <p>NAS-XML</p>
                    </div>
                </label>
            </div>
        ")
    };

    let clean_stage7_test = {
        format!("

                <div class='__application-ribbon-section-content __mini_content'>
                <label onmouseup='cleanStage(1, event);' class='__application-ribbon-action-vertical-large' style='margin-top:0px;'>
                    <div class='icon-wrapper'>
                        <img class='icon {disabled}' src='data:image/png;base64,{icon_export_lefis}'>
                    </div>
                    <div>
                        <p>[1] Punkte auf Änd. ziehen</p>
                    </div>
                </label>

                <label onmouseup='cleanStage(2, event);' class='__application-ribbon-action-vertical-large'>
                    <div class='icon-wrapper'>
                        <img class='icon {disabled}' src='data:image/png;base64,{icon_export_lefis}'>
                    </div>
                    <div>
                        <p>[2] Punkte einf. von nahen Änd.</p>
                    </div>
                </label>

                <label onmouseup='cleanStage(3, event);' class='__application-ribbon-action-vertical-large'>
                    <div class='icon-wrapper'>
                        <img class='icon {disabled}' src='data:image/png;base64,{icon_export_lefis}'>
                    </div>
                    <div>
                        <p>[3] Punkte auf Flst. ziehen</p>
                    </div>
                </label>
            </div>

            <div class='__application-ribbon-section-content __mini_content'>
                <label onmouseup='cleanStage(4, event);' class='__application-ribbon-action-vertical-large' style='margin-top:0px;'>
                    <div class='icon-wrapper'>
                        <img class='icon {disabled}' src='data:image/png;base64,{icon_export_lefis}'>
                    </div>
                    <div>
                        <p>[4] Punkte einf. von nahen Flst.</p>
                    </div>
                </label>

                <label onmouseup='cleanStage(25, event);' class='__application-ribbon-action-vertical-large'>
                    <div class='icon-wrapper'>
                        <img class='icon {disabled}' src='data:image/png;base64,{icon_export_lefis}'>
                    </div>
                    <div>
                        <p>[5] Änd. verbinden nach Typ</p>
                    </div>
                </label>
                

                <label onmouseup='cleanStage(5, event);' class='__application-ribbon-action-vertical-large'>
                    <div class='icon-wrapper'>
                        <img class='icon {disabled}' src='data:image/png;base64,{icon_export_lefis}'>
                    </div>
                    <div>
                        <p>[6] Überlappende Änd. subtrah.</p>
                    </div>
                </label>
            </div>

            <div class='__application-ribbon-section-content'>
                <label onmouseup='cleanStage(7, event)' class='__application-ribbon-action-vertical-large'>
                    <div class='icon-wrapper'>
                        <img class='icon {disabled}' src='data:image/png;base64,{icon_export_lefis}'>
                    </div>
                    <div>
                        <p>Änderungen</p>
                        <p>zu Splitfl.</p>
                    </div>
                </label>
            </div>

            <div class='__application-ribbon-section-content'>
                <label onmouseup='cleanStage(8, event)' class='__application-ribbon-action-vertical-large'>
                    <div class='icon-wrapper'>
                        <img class='icon {disabled}' src='data:image/png;base64,{icon_export_lefis}'>
                    </div>
                    <div>
                        <p>Änderungen</p>
                        <p>zu DAVID</p>
                    </div>
                </label>
            </div>
        ")
    };

    let ribbon_body = match tab {
        0 => {
            format!(
                "
            <div class='__application-ribbon-header'>
                <p onmouseup='selectTab(0);' class='active'>START</p>
                <p onmouseup='selectTab(2);'>EXPORT</p>
                <div style='flex-grow:1;'></div>
                <input type='search' placeholder='Nutzungsarten durchsuchen...' style='margin-right:5px;margin-top:5px;min-width:300px;border:1px solid gray;max-height:25px;padding:5px;' oninput='searchNA(event);' onchange='searchNA(event);' onfocusout='closePopOver();'></input>
            </div>
            <div class='__application-ribbon-body'>
                <div class='__application-ribbon-section 1'>
                    <div style='display:flex;flex-direction:row;'>
                        
                        {projekt_oeffnen}

                        {neues_projekt}
                        
                    </div>
                </div>
            
                <div class='__application-ribbon-section 2'>
                    <div style='display:flex;flex-direction:row;'>

                        {zurueck}
                        
                        {vorwaerts}
                    </div>
                </div>
                
                <div class='__application-ribbon-section 5'>
                    <div style='display:flex;flex-direction:row;'>
                        {daten_importieren}
                        {export_alle_flurstuecke}
                    </div>
                </div>

                <div class='__application-ribbon-section 2'>
                    <div style='display:flex;flex-direction:row;'>
                        {gebaeude_loeschen}
                        {nutzung_einzeichnen}
                    </div>
                </div>

                <div class='__application-ribbon-section 5'>
                    <div style='display:flex;flex-direction:row;'>
                        {projekt_speichern}
                    </div>
                </div>


                <div class='__application-ribbon-section 5'>
                    <div style='display:flex;flex-direction:row;'>
                        {clean_stage7_test}
                    </div>
                </div>

                <div style='display:flex;flex-grow:1;'></div>
                
                <div class='__application-ribbon-section 6'>
                    <div style='display:flex;flex-direction:row;'>

                        {einstellungen}

                        {hilfe}

                        {info}

                    </div>
                </div>
            </div>
            "
            )
        }
        _ => {
            format!(
                "
            <div class='__application-ribbon-header'>
                <p onmouseup='selectTab(0);'>START</p>
                <p onmouseup='selectTab(2);' class='active'>EXPORT</p>
                <div style='flex-grow:1;' ondblclick='tab_functions.export_uebersicht(event);'></div>
                <p id='export-status'></p>
                <input type='search' placeholder='Nutzungsarten durchsuchen...' style='margin-right:5px;margin-top:5px;min-width:300px;border:1px solid gray;max-height:25px;padding:5px;' oninput='searchNA(event);' onchange='searchNA(event);' onfocusout='closePopOver();'></input>
            </div>
            <div class='__application-ribbon-body'>

                <div class='__application-ribbon-section 2'>
                    <div style='display:flex;flex-direction:row;'>
                        {export_david}
                        {export_nas_xml}
                        {export_geograf}
                    </div>
                </div>

                <div class='__application-ribbon-section 2'>
                    <div style='display:flex;flex-direction:row;'>
                        {export_log}
                        {projekt_speichern}
                    </div>
                </div>

                <div style='display:flex;flex-grow:1;'></div>
                
                <div class='__application-ribbon-section 6'>
                    <div style='display:flex;flex-direction:row;'>

                        {einstellungen}

                        {hilfe}

                        {info}

                    </div>
                </div>
            </div>
        "
            )
        }
    };

        normalize_for_js(ribbon_body)
}

#[test]
fn ribbon_of_the_start_tab() {
    for tool in [None, Some(Tool::GebaeudeLoeschen), Some(Tool::NutzungEinzeichnen), Some(Tool::RissgebietZeichnen)] {
        assert_eq!(render_ribbon(None, tool, &icons()), expected(0, tool));
        assert_eq!(render_ribbon(Some(0), tool, &icons()), expected(0, tool));
    }
    let r = render_ribbon(None, Some(Tool::GebaeudeLoeschen), &icons());
    assert!(r.contains("ICON_HOUSE_BASE64"));
    assert!(r.contains("background:red !important;color:white !important;"));
}

#[test]
fn ribbon_of_the_export_tab() {
    assert_eq!(render_ribbon(Some(2), None, &icons()), expected(2, None));
    assert_eq!(render_ribbon(Some(1), Some(Tool::NutzungEinzeichnen), &icons()), expected(1, Some(Tool::NutzungEinzeichnen)));
    assert!(!render_ribbon(Some(2), None, &icons()).contains("ICON_HOUSE_BASE64"));
}
