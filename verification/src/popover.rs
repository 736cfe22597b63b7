//! The popover over the page: the version and licenses, the handbook, the
//! settings pages, and the context menu.

use vstd::prelude::*;
use crate::text::{push_str, string_from_chars, trim, trim_str};
use crate::ui::{ConfigurationView, Tool, normalize_for_js, spec_normalize_for_js};
use crate::pdf::{
    EbenenStyle, EbenenStyleView, Konfiguration, MapKonfiguration, PdfEbenenStyle, PdfEbenenStyleView,
    PdfStyleConfig, StyleConfig, opt_view, pdf_style_view, pdf_styled_views, spec_nutzungsarten_sorted,
    spec_styles_sorted, style_view, styled_views,
};
use crate::xml_templates::concat_all;

verus! {

/// Where the context menu opens: the page coordinates as the page writes
/// them.
#[derive(Debug)]
pub struct ContextMenuData {
    pub x: String,
    pub y: String,
}

/// What the popover shows.
#[derive(Debug)]
pub enum PopoverState {
    ContextMenu(ContextMenuData),
    Info,
    Configuration(ConfigurationView),
    Help,
}

/// The state of the page.
#[derive(Debug)]
pub struct UiData {
    pub popover_state: Option<PopoverState>,
    pub tab: Option<usize>,
    pub tool: Option<Tool>,
    pub selected_edit_flst: String,
    pub secondary_content: Option<bool>,
    pub render_out: Option<bool>,
}

/// The context menu is open.
pub open spec fn context_menu_open(ui: UiData) -> bool {
    ui.popover_state matches Some(PopoverState::ContextMenu(_))
}

impl UiData {
    /// The context menu is open.
    pub fn is_context_menu_open(&self) -> (r: bool)
        ensures
            r == context_menu_open(*self),
    {
        match self.popover_state {
            Some(PopoverState::ContextMenu(_)) => true,
            _ => false,
        }
    }
}

/// The images and documents that the popover shows: the icons as base64
/// PNG data, the licenses and the handbook (with its images) as base64
/// HTML, and the program's version.
pub struct PopoverAssets {
    pub icon_close: String,
    pub icon_settings: String,
    pub icon_clean: String,
    pub icon_save: String,
    pub icon_load: String,
    pub license_base64: String,
    pub handbook_base64: String,
    pub version: String,
}

/// The text of a setting, or `d` where it has none.
pub open spec fn opt_or(o: Option<Seq<char>>, d: Seq<char>) -> Seq<char> {
    match o {
        Some(s) => s,
        None => d,
    }
}

/// The mark of the open page in the list of the settings pages.
pub open spec fn active_mark(b: bool) -> Seq<char> {
    if b {
        " active"@
    } else {
        ""@
    }
}

/// The check mark of a check box.
pub open spec fn overprint_mark(b: bool) -> Seq<char> {
    if b {
        "checked='checked'"@
    } else {
        ""@
    }
}

/// The choices of the pattern placement.
pub open spec fn pattern_options() -> Seq<char> {
    popover_option("none"@, "Kein Muster"@) + popover_option("mitte"@, "mittig platzieren"@)
        + popover_option("pattern"@, "Wiederholen (kein Versatz)"@) + popover_option(
        "pattern-alternate"@,
        "Mit Versatz wiederholen"@,
    )
}

/// The open settings page's content.
pub open spec fn popover_main_content(cw: ConfigurationView, k: Konfiguration) -> Seq<char> {
    match cw {
        ConfigurationView::Allgemein => popover_allgemein(k.map),
        ConfigurationView::DarstellungBearbeitung => popover_bearbeitung(k.style),
        ConfigurationView::DarstellungPdf => popover_pdf(k.pdf),
        ConfigurationView::DarstellungPdfAllgemein => popover_pdf_allgemein(k.pdf),
        ConfigurationView::PdfBeschriftungen => popover_beschriftungen(),
        ConfigurationView::PdfSymbole => popover_symbole(),
    }
}

/// What the popover shows.
pub open spec fn popover_pc(ps: PopoverState, k: Konfiguration, a: PopoverAssets) -> Seq<char> {
    match ps {
        PopoverState::Info => popover_info(a),
        PopoverState::Help => popover_help(a),
        PopoverState::Configuration(cw) => popover_configuration(cw, k, a),
        PopoverState::ContextMenu(cm) => popover_context_menu(cm),
    }
}

/// The popover, for the page's JavaScript: nothing where none is open; the
/// context menu over a clear layer, the others over a dark one that
/// scrolls.
pub open spec fn spec_popover_content(ui: UiData, k: Konfiguration, a: PopoverAssets) -> Seq<char> {
    match ui.popover_state {
        None => Seq::empty(),
        Some(ps) => spec_normalize_for_js(
            popover_outer(
                if context_menu_open(ui) {
                    "transparent"@
                } else {
                    "rgba(0, 0, 0, 0.5)"@
                },
                if context_menu_open(ui) {
                    ""@
                } else {
                    "overflow:auto;"@
                },
                popover_pc(ps, k, a),
            ),
        ),
    }
}

/// The button that closes the popover.
pub open spec fn popover_close(a: PopoverAssets) -> Seq<char> {
    "
    <div style='position:absolute;top:50px;z-index:9999;right:-25px;background:white;border-radius:10px;box-shadow: 0px 0px 10px #cccccc88;cursor:pointer;' onmouseup='closePopOver()'>
        <img src='data:image/png;base64,"@
        + a.icon_close@
        + "' style='width:50px;height:50px;cursor:pointer;' />
    </div>"@
}

/// The version and the licenses.
pub open spec fn popover_info(a: PopoverAssets) -> Seq<char> {
    "
            <div style='box-shadow:0px 0px 100px #22222288;pointer-events:initial;width:800px;display:flex;flex-direction:column;position:relative;margin:10px auto;border:1px solid grey;background:white;padding:100px;border-radius:5px;' onmousedown='event.stopPropagation();' onmouseup='event.stopPropagation();'>
                
                "@
        + popover_close(a)
        + "

                <h2 style='font-size:24px;font-family:sans-serif;'>Digitales Projekt Version "@
        + a.version@
        + "</h2>
                
                <div style='padding:5px 0px;display:flex;flex-grow:1;min-height:750px;'>
                    <iframe width='auto' height='auto' src='data:text/html;base64,"@
        + a.license_base64@
        + "' style='min-width:100%;min-height:100%;'></iframe>                       
                </div>
                                
            </div>
            "@
}

/// The handbook.
pub open spec fn popover_help(a: PopoverAssets) -> Seq<char> {
    "
            <div style='box-shadow:0px 0px 100px #22222288;pointer-events:initial;width:800px;display:flex;flex-direction:column;position:relative;margin:10px auto;border:1px solid grey;background:white;padding:100px;border-radius:5px;' onmousedown='event.stopPropagation();' onmouseup='event.stopPropagation();'>

                "@
        + popover_close(a)
        + "
                
                <h2 style='font-size:24px;font-family:sans-serif;margin-bottom:25px;'>Benutzerhandbuch</h2>
                <div style='padding:5px 0px;display:flex;flex-grow:1;line-height:1.5;min-height:750px;'>
                    <iframe src='data:text/html;base64,"@
        + a.handbook_base64@
        + "' width='100%' height='100%' style='min-width:100%;min-height:750px;display:flex;flex-grow:1;'/>
                </div>

            </div>"@
}

/// Part 1 of `popover_sidebar`.
pub open spec fn popover_sidebar_part1(cw: ConfigurationView, a: PopoverAssets) -> Seq<char> {
    "
                <div class='__application_configuration_sidebar' style='display:flex;flex-direction:column;width:160px;min-height:750px;'>
                    
                    <div class='__application_configuration_sidebar_section"@
        + active_mark(cw == ConfigurationView::Allgemein)
        + "' onmouseup='activateConfigurationView(event, \"allgemein\")'>
                        <img style='width:25px;height:25px;' src='data:image/png;base64,"@
        + a.icon_settings@
        + "'></img>
                        <p>Allgemein</p>
                    </div>
                    
                    <hr/>
                    
                    <div class='__application_configuration_sidebar_section"@
        + active_mark(cw == ConfigurationView::DarstellungBearbeitung)
        + "' onmouseup='activateConfigurationView(event, \"darstellung-bearbeitung\")'>
                        <img style='width:25px;height:25px;' src='data:image/png;base64,"@
        + a.icon_clean@
}

/// Part 2 of `popover_sidebar`.
pub open spec fn popover_sidebar_part2(cw: ConfigurationView, a: PopoverAssets) -> Seq<char> {
    "'></img>
                        <p>Bearbeitung</p>
                    </div>

                    <div class='__application_configuration_sidebar_section"@
        + active_mark(cw == ConfigurationView::DarstellungPdfAllgemein)
        + "' onmouseup='activateConfigurationView(event, \"darstellung-pdf-allgemein\")'>
                        <img style='width:25px;height:25px;' src='data:image/png;base64,"@
        + a.icon_clean@
        + "'></img>
                        <p>PDF Allgemein</p>
                    </div>

                    <div class='__application_configuration_sidebar_section"@
        + active_mark(cw == ConfigurationView::DarstellungPdf)
        + "' onmouseup='activateConfigurationView(event, \"darstellung-pdf\")'>
                        <img style='width:25px;height:25px;' src='data:image/png;base64,"@
        + a.icon_clean@
}

/// Part 3 of `popover_sidebar`.
pub open spec fn popover_sidebar_part3(cw: ConfigurationView, a: PopoverAssets) -> Seq<char> {
    "'></img>
                        <p>PDF Ebenen</p>
                    </div>

                    <div class='__application_configuration_sidebar_section"@
        + active_mark(cw == ConfigurationView::PdfBeschriftungen)
        + "' onmouseup='activateConfigurationView(event, \"pdf-beschriftungen\")'>
                        <img style='width:25px;height:25px;' src='data:image/png;base64,"@
        + a.icon_clean@
        + "'></img>
                        <p>PDF Beschriftungen</p>
                    </div>

                    <div class='__application_configuration_sidebar_section"@
        + active_mark(cw == ConfigurationView::PdfSymbole)
        + "' onmouseup='activateConfigurationView(event, \"pdf-symbole\")'>
                        <img style='width:25px;height:25px;' src='data:image/png;base64,"@
        + a.icon_clean@
}

/// Part 4 of `popover_sidebar`.
pub open spec fn popover_sidebar_part4(cw: ConfigurationView, a: PopoverAssets) -> Seq<char> {
    "'></img>
                        <p>PDF Symbole</p>
                    </div>

                    <div style='display:flex;min-height:50px;'></div>
                    <div class='__application_configuration_sidebar_section' onmouseup='loadSettings();'>
                        <img style='width:25px;height:25px;' src='data:image/png;base64,"@
        + a.icon_load@
        + "'></img>
                        <p>Einstellungen laden</p>
                    </div>
                    <div class='__application_configuration_sidebar_section' onmouseup='saveSettings();'>
                        <img style='width:25px;height:25px;' src='data:image/png;base64,"@
        + a.icon_save@
        + "'></img>
                        <p>Einstellungen speichern</p>
                    </div>
                </div>
            "@
}

/// The list of the settings pages, the open one marked.
pub open spec fn popover_sidebar(cw: ConfigurationView, a: PopoverAssets) -> Seq<char> {
    popover_sidebar_part1(cw, a)
        + popover_sidebar_part2(cw, a)
        + popover_sidebar_part3(cw, a)
        + popover_sidebar_part4(cw, a)
}

/// The general settings: the sources of the background maps.
pub open spec fn popover_allgemein(m: MapKonfiguration) -> Seq<char> {
    "
                    <div style='padding:5px 0px;display:flex;flex-direction:column;flex-grow:1;'>
                        <div>
                            <h2 style='font-size:20px;'>Allgemein</h2>
                            
                            <div style='display:flex;justify-content:space-between;padding:10px 0px;font-size:16px;'>
                                <label style='font-size:20px;font-style:italic;'>Basiskarte</label>
                                <input type='text' class='konfiguration-editfield1' value='"@
        + trim(opt_or(opt_view(m.basemap), ""@))
        + "' data-konfiguration-textfield='map-basiskarte' onchange='editKonfigurationTextField(event)'></input>
                            </div>
                    
                            <div style='display:flex;justify-content:space-between;padding:10px 0px;font-size:16px;'>
                                <label style='font-size:20px;font-style:italic;'>DOP Quelle</label>
                                <input type='text' class='konfiguration-editfield1' value='"@
        + trim(opt_or(opt_view(m.dop_source), ""@))
        + "' data-konfiguration-textfield='map-dop-source' onchange='editKonfigurationTextField(event)'></input>
                            </div>

                            <div style='display:flex;justify-content:space-between;padding:10px 0px;font-size:16px;'>
                                <label style='font-size:20px;font-style:italic;'>DOP Ebene</label>
                                <input type='text' class='konfiguration-editfield1' value='"@
        + trim(opt_or(opt_view(m.dop_layers), ""@))
        + "' data-konfiguration-textfield='map-dop-layer' onchange='editKonfigurationTextField(event)'></input>
                            </div>

                            <div style='display:flex;justify-content:space-between;padding:10px 0px;font-size:16px;'>
                                <label style='font-size:20px;font-style:italic;'>DGM Quelle</label>
                                <input type='text' class='konfiguration-editfield1' value='"@
        + trim(opt_or(opt_view(m.dgm_source), ""@))
        + "' data-konfiguration-textfield='map-dgm-source' onchange='editKonfigurationTextField(event)'></input>
                            </div>

                            <div style='display:flex;justify-content:space-between;padding:10px 0px;font-size:16px;'>
                                <label style='font-size:20px;font-style:italic;'>DGM Ebene</label>
                                <input type='text' class='konfiguration-editfield1' value='"@
        + trim(opt_or(opt_view(m.dgm_layers), ""@))
        + "' data-konfiguration-textfield='map-dgm-layer' onchange='editKonfigurationTextField(event)'></input>
                            </div>
                        </div>
                    </div>
                "@
}

/// Part 1 of `popover_bearbeitung_row`.
pub open spec fn popover_bearbeitung_row_part1(k: Seq<char>, s: EbenenStyleView) -> Seq<char> {
    "
                            <div style='padding:10px;margin-bottom:5px;background:#cccccc;'>
                                <div style='display: flex;flex-direction: row;justify-content: flex-end;'>
                                    <input type='text' class='konfiguration-editfield1' value='"@
        + trim(s.name)
        + "' data-konfiguration-style-id='"@
        + k
        + "' data-konfiguration-textfield='map-style-name' onchange='editKonfigurationTextField(event)' style='flex-grow:1;'></input>
                                    <button onclick='moveOrDeleteKonfigurationField(event);' data-move-type='move-up' data-konfiguration-type='style' data-konfiguration-style-id='"@
        + k
        + "' style='padding: 2px 5px;margin-left: 5px;cursor: pointer;border-radius: 3px;'>^ Layer anheben</button>
                                    <button onclick='moveOrDeleteKonfigurationField(event);' data-move-type='move-down'  data-konfiguration-type='style' data-konfiguration-style-id='"@
        + k
}

/// Part 2 of `popover_bearbeitung_row`.
pub open spec fn popover_bearbeitung_row_part2(k: Seq<char>, s: EbenenStyleView) -> Seq<char> {
    "' style='padding: 2px 5px;margin-left: 5px;cursor: pointer;border-radius: 3px;'>v Layer absenken</button>
                                    <button onclick='moveOrDeleteKonfigurationField(event);' data-move-type='delete' data-konfiguration-type='style' data-konfiguration-style-id='"@
        + k
        + "' style='padding: 2px 5px;margin-left: 5px;cursor: pointer;border-radius: 3px;'>Layer löschen</button>
                                </div>
                                <div style='display:flex;justify-content:space-between;padding:10px 0px;font-size:16px;'>
                                    <label style='font-size:12px;font-style:italic;'>Füllung</label>
                                    <input type='color' class='konfiguration-editfield1' value='"@
        + opt_or(s.fill_color, "#000000"@)
        + "' data-konfiguration-style-id='"@
        + k
        + "' data-konfiguration-textfield='map-style-fillcolor' onchange='editKonfigurationTextField(event)'></input>
                                </div>
                                <div style='display:flex;justify-content:space-between;padding:10px 0px;font-size:16px;'>
                                    <label style='font-size:12px;font-style:italic;'>Umrandung</label>
                                    <input type='color' class='konfiguration-editfield1' value='"@
        + opt_or(s.outline_color, "#000000"@)
}

/// Part 3 of `popover_bearbeitung_row`.
pub open spec fn popover_bearbeitung_row_part3(k: Seq<char>, s: EbenenStyleView) -> Seq<char> {
    "' data-konfiguration-style-id='"@
        + k
        + "' data-konfiguration-textfield='map-style-outlinecolor' onchange='editKonfigurationTextField(event)'></input>
                                </div>
                                <div style='display:flex;justify-content:space-between;padding:10px 0px;font-size:16px;'>
                                    <label style='font-size:12px;font-style:italic;'>Umrandung</label>
                                    <input type='number' class='konfiguration-editfield1' value='"@
        + opt_or(s.outline_thickness, "0"@)
        + "' minval='0' maxval='10' data-konfiguration-style-id='"@
        + k
        + "' data-konfiguration-textfield='map-style-outlinethickness' onchange='editKonfigurationTextField(event)'></input>
                                </div>
                            </div>
                            "@
}

/// The fields of a map style.
pub open spec fn popover_bearbeitung_row(k: Seq<char>, s: EbenenStyleView) -> Seq<char> {
    popover_bearbeitung_row_part1(k, s)
        + popover_bearbeitung_row_part2(k, s)
        + popover_bearbeitung_row_part3(k, s)
}

/// The map styles, in drawing order.
pub open spec fn popover_bearbeitung(c: StyleConfig) -> Seq<char> {
    "
                        <div style='padding:5px 0px;display:flex;flex-direction:column;flex-grow:1;'>
                            <div>
                                <h2 style='font-size:20px;'>Bearbeitung</h2>
                                
                                <button onclick='konfigurationLayerNeu(event)' data-konfiguration-type='style' style='display: flex;width: 100%;margin-bottom: 10px;margin-top: 10px;cursor: pointer;background: #d1e9d7;padding: 10px;border-radius: 5px;'>Neue Ebene anlegen</button>
                                
                                <div style='max-height:500px;overflow-y:scroll'>
                                "@
        + concat_all(spec_styles_sorted(c).map_values(|e: (Seq<char>, EbenenStyleView)| popover_bearbeitung_row(e.0, e.1)))
        + "
                                </div>
                            </div>
                        </div>
                    "@
}

/// A choice of a select field.
pub open spec fn popover_option(k: Seq<char>, w: Seq<char>) -> Seq<char> {
    "<option value='"@
        + k
        + "'>"@
        + w
        + "</option>"@
}

/// Part 1 of `popover_pdf_row`.
pub open spec fn popover_pdf_row_part1(k: Seq<char>, s: PdfEbenenStyleView) -> Seq<char> {
    "
                            <div style='padding:10px;margin-bottom:5px;background:#cccccc;'>
                                <div style='display: flex;flex-direction: row;justify-content: flex-end;'>
                                    <input type='text' class='konfiguration-editfield1' value='"@
        + s.kuerzel
        + "' data-konfiguration-style-id='"@
        + k
        + "' data-konfiguration-textfield='map-pdf-nutzungsart-name' onchange='editKonfigurationTextField(event)' style='flex-grow:1;'></input>
                                    <button onclick='moveOrDeleteKonfigurationField(event);' data-move-type='move-up'  data-konfiguration-type='pdf-nutzungsarten' data-konfiguration-style-id='"@
        + k
        + "' style='padding: 2px 5px;margin-left: 5px;cursor: pointer;border-radius: 3px;'>^ Layer anheben</button>
                                    <button onclick='moveOrDeleteKonfigurationField(event);' data-move-type='move-down'  data-konfiguration-type='pdf-nutzungsarten' data-konfiguration-style-id='"@
        + k
}

/// Part 2 of `popover_pdf_row`.
pub open spec fn popover_pdf_row_part2(k: Seq<char>, s: PdfEbenenStyleView) -> Seq<char> {
    "' style='padding: 2px 5px;margin-left: 5px;cursor: pointer;border-radius: 3px;'>v Layer absenken</button>
                                    <button onclick='moveOrDeleteKonfigurationField(event);' data-move-type='delete'  data-konfiguration-type='pdf-nutzungsarten' data-konfiguration-style-id='"@
        + k
        + "' style='padding: 2px 5px;margin-left: 5px;cursor: pointer;border-radius: 3px;'>Layer löschen</button>
                                </div>
                                <div style='display:flex;justify-content:space-between;padding:10px 0px;font-size:16px;'>
                                    <label style='font-size:12px;font-style:italic;'>Füllung</label>
                                    <input type='color' class='konfiguration-editfield1' value='"@
        + opt_or(s.fill_color, "#000000"@)
        + "' data-konfiguration-style-id='"@
        + k
        + "' data-konfiguration-textfield='map-pdf-nutzungsart-fillcolor' onchange='editKonfigurationTextField(event)'></input>
                                </div>
                                <div style='display:flex;justify-content:space-between;padding:10px 0px;font-size:16px;'>
                                    <label style='font-size:12px;font-style:italic;'>Umrandung</label>
                                    <input type='color' class='konfiguration-editfield1' value='"@
        + opt_or(s.outline_color, "#000000"@)
}

/// Part 3 of `popover_pdf_row`.
pub open spec fn popover_pdf_row_part3(k: Seq<char>, s: PdfEbenenStyleView) -> Seq<char> {
    "' data-konfiguration-style-id='"@
        + k
        + "' data-konfiguration-textfield='map-pdf-nutzungsart-outlinecolor' onchange='editKonfigurationTextField(event)'></input>
                                </div>
                                <div style='display:flex;justify-content:space-between;padding:10px 0px;font-size:16px;'>
                                    <label style='font-size:12px;font-style:italic;'>Umrandung</label>
                                    <input type='number' class='konfiguration-editfield1' value='"@
        + opt_or(s.outline_thickness, "0"@)
        + "' minval='0' maxval='10' data-konfiguration-style-id='"@
        + k
        + "' data-konfiguration-textfield='map-pdf-nutzungsart-outlinethickness' onchange='editKonfigurationTextField(event)'></input>
                                </div>
                                <div style='display:flex;justify-content:space-between;padding:10px 0px;font-size:16px;'>
                                    <label style='font-size:12px;font-style:italic;'>Strichelung Umrandung</label>
                                    <input type='text' class='konfiguration-editfield1' value='"@
        + opt_or(s.outline_dash, ""@)
}

/// Part 4 of `popover_pdf_row`.
pub open spec fn popover_pdf_row_part4(k: Seq<char>, s: PdfEbenenStyleView) -> Seq<char> {
    "' data-konfiguration-style-id='"@
        + k
        + "' data-konfiguration-textfield='map-pdf-nutzungsart-outlinedash' onchange='editKonfigurationTextField(event)'></input>
                                </div>
                                <div style='display:flex;justify-content:space-between;padding:10px 0px;font-size:16px;'>
                                    <label style='font-size:12px;font-style:italic;'>Umrandung überdrucken (Overprint)</label>
                                    <input type='checkbox' "@
        + overprint_mark(s.outline_overprint)
        + " class='konfiguration-editfield1' data-konfiguration-style-id='"@
        + k
        + "' data-konfiguration-textfield='map-pdf-nutzungsart-outline-overprint' onchange='editKonfigurationTextField(event)'></input>
                                </div>

                                <div style='display:flex;justify-content:space-between;padding:10px 0px;font-size:16px;'>
                                    <label style='font-size:12px;font-style:italic;'>Muster</label>
                                    <input id='__application_pdf_nutzungsart_pattern_"@
        + k
}

/// Part 5 of `popover_pdf_row`.
pub open spec fn popover_pdf_row_part5(k: Seq<char>, s: PdfEbenenStyleView) -> Seq<char> {
    "' type='hidden' style='display:none;' onchange='editKonfigurationTextField(event)' data-konfiguration-textfield='map-pdf-nutzungsart-pattern-svg' data-konfiguration-style-id='"@
        + k
        + "' value='"@
        + opt_or(s.pattern_svg, ""@)
        + "'></input>
                                    <input type='file' accept='.svg' style='display:flex;' class='konfiguration-editfield1' data-konfiguration-style-id='"@
        + k
        + "' data-konfiguration-textfield='map-pdf-nutzungsart-pattern-svg' onchange='editKonfigurationInputFile(event)'></input>
                                </div>
                                
                                <div style='display:flex;justify-content:space-between;padding:10px 0px;font-size:16px;'>
                                    <label style='font-size:12px;font-style:italic;'>Platzierung Muster</label>
                                    <select value='"@
        + opt_or(s.pattern_placement, ""@)
}

/// Part 6 of `popover_pdf_row`.
pub open spec fn popover_pdf_row_part6(k: Seq<char>, s: PdfEbenenStyleView) -> Seq<char> {
    "' style='display:flex;flex-grow:1;max-width:300px;' data-konfiguration-style-id='"@
        + k
        + "' data-konfiguration-textfield='map-pdf-nutzungsart-pattern-type' onchange='editKonfigurationTextField(event)'>
                                        "@
        + pattern_options()
        + "
                                    </select>
                                </div>

                                <div style='display:flex;justify-content:space-between;padding:10px 0px;font-size:16px;'>
                                    <label style='font-size:12px;font-style:italic;'>Beschriftung Schrift</label>
                                    <input type='text' class='konfiguration-editfield1' value='"@
        + opt_or(s.lagebez_ohne_hsnr.font, ""@)
        + "' data-konfiguration-style-id='"@
        + k
}

/// Part 7 of `popover_pdf_row`.
pub open spec fn popover_pdf_row_part7(k: Seq<char>, s: PdfEbenenStyleView) -> Seq<char> {
    "' data-konfiguration-textfield='map-pdf-nutzungsart-beschriftung-schriftart' onchange='editKonfigurationTextField(event)'></input>
                                </div>

                                <div style='display:flex;justify-content:space-between;padding:10px 0px;font-size:16px;'>
                                    <label style='font-size:12px;font-style:italic;'>Beschriftung Schriftgröße</label>
                                    <input type='number' class='konfiguration-editfield1' value='"@
        + opt_or(s.lagebez_ohne_hsnr.fontsize, "0"@)
        + "' data-konfiguration-style-id='"@
        + k
        + "' minval='0' maxval='50' data-konfiguration-textfield='map-pdf-nutzungsart-beschriftung-schriftgroesse' onchange='editKonfigurationTextField(event)'></input>
                                </div>

                                <div style='display:flex;justify-content:space-between;padding:10px 0px;font-size:16px;'>
                                    <label style='font-size:12px;font-style:italic;'>Beschriftung Schrift</label>
                                    <input type='color' class='konfiguration-editfield1' value='"@
        + opt_or(s.lagebez_ohne_hsnr.color, "#000000"@)
        + "' data-konfiguration-style-id='"@
        + k
}

/// Part 8 of `popover_pdf_row`.
pub open spec fn popover_pdf_row_part8(k: Seq<char>, s: PdfEbenenStyleView) -> Seq<char> {
    "' data-konfiguration-textfield='map-pdf-nutzungsart-beschriftung-schriftfarbe' onchange='editKonfigurationTextField(event)'></input>
                                </div>
                            </div>
                            "@
}

/// The fields of a PDF style.
pub open spec fn popover_pdf_row(k: Seq<char>, s: PdfEbenenStyleView) -> Seq<char> {
    popover_pdf_row_part1(k, s)
        + popover_pdf_row_part2(k, s)
        + popover_pdf_row_part3(k, s)
        + popover_pdf_row_part4(k, s)
        + popover_pdf_row_part5(k, s)
        + popover_pdf_row_part6(k, s)
        + popover_pdf_row_part7(k, s)
        + popover_pdf_row_part8(k, s)
}

/// The PDF styles, in drawing order.
pub open spec fn popover_pdf(c: PdfStyleConfig) -> Seq<char> {
    "
                        <div style='padding:5px 0px;display:flex;flex-direction:column;flex-grow:1;'>
                            <div>
                                <h2 style='font-size:20px;'>PDF Ebenen</h2>
                                
                                <!-- NORDPFEIL SVG ... -->

                                <button onclick='konfigurationLayerNeu(event)' data-konfiguration-type='pdf-nutzungsarten' style='display: flex;width: 100%;margin-bottom: 10px;margin-top: 10px;cursor: pointer;background: #d1e9d7;padding: 10px;border-radius: 5px;'>Neue Ebene anlegen</button>

                                <button onclick='konfigurationLayerAlle(event)' data-konfiguration-type='style' style='display: flex;width: 100%;margin-bottom: 10px;margin-top: 10px;cursor: pointer;background: #d1e9d7;padding: 10px;border-radius: 5px;'>Alle sichtbaren Kürzel übernehmen</button>

                                <div style='max-height:500px;overflow-y:scroll'>
                                "@
        + concat_all(spec_nutzungsarten_sorted(c).map_values(|e: (Seq<char>, PdfEbenenStyleView)| popover_pdf_row(e.0, e.1)))
        + "
                                </div>
                                
                            </div>
                        </div>
                    "@
}

/// The SVG symbols of the PDF.
pub open spec fn popover_pdf_allgemein(c: PdfStyleConfig) -> Seq<char> {
    "
                        <div style='padding:5px 0px;display:flex;flex-direction:column;flex-grow:1;'>
                            <div>
                                <h2 style='font-size:20px;'>PDF Allgemein</h2>
                                
                                <div style='display:flex;justify-content:space-between;padding:10px 0px;font-size:16px;'>
                                    <label style='font-size:12px;font-style:italic;'>SVG Grenzpunkt</label>
                                    <input id='__application_pdf_nutzungsart_pattern_svg_grenzpunkt' type='hidden' style='display:none;' onchange='editKonfigurationTextField(event)' data-konfiguration-textfield='map-pdf-svg-grenzpunkt' data-konfiguration-style-id='svg_grenzpunkt' value='"@
        + opt_or(opt_view(c.grenzpunkt_svg), ""@)
        + "'></input>
                                    <input type='file' accept='.svg' style='display:flex;' class='konfiguration-editfield1' data-konfiguration-style-id='svg_grenzpunkt' data-konfiguration-textfield='map-pdf-nutzungsart-pattern-svg' onchange='editKonfigurationInputFile(event)'></input>
                                </div>

                                <div style='display:flex;justify-content:space-between;padding:10px 0px;font-size:16px;'>
                                    <label style='font-size:12px;font-style:italic;'>SVG Pfeil</label>
                                    <input id='__application_pdf_nutzungsart_pattern_svg_pfeil' type='hidden' style='display:none;' onchange='editKonfigurationTextField(event)' data-konfiguration-textfield='map-pdf-svg-pfeil' data-konfiguration-style-id='svg_pfeil' value='"@
        + opt_or(opt_view(c.pfeil_svg), ""@)
        + "'></input>
                                    <input type='file' accept='.svg' style='display:flex;' class='konfiguration-editfield1' data-konfiguration-style-id='svg_pfeil' data-konfiguration-textfield='map-pdf-nutzungsart-pattern-svg' onchange='editKonfigurationInputFile(event)'></input>
                                </div>

                                <div style='display:flex;justify-content:space-between;padding:10px 0px;font-size:16px;'>
                                    <label style='font-size:12px;font-style:italic;'>SVG Nordpfeil</label>
                                    <input id='__application_pdf_nutzungsart_pattern_svg_nordpfeil' type='hidden' style='display:none;' onchange='editKonfigurationTextField(event)' data-konfiguration-textfield='map-pdf-svg-nordpfeil' data-konfiguration-style-id='svg_nordpfeil' value='"@
        + opt_or(opt_view(c.nordpfeil_svg), ""@)
        + "'></input>
                                    <input type='file' accept='.svg' style='display:flex;' class='konfiguration-editfield1' data-konfiguration-style-id='svg_nordpfeil' data-konfiguration-textfield='map-pdf-nutzungsart-pattern-svg' onchange='editKonfigurationInputFile(event)'></input>
                                </div>

                                <div style='display:flex;justify-content:space-between;padding:10px 0px;font-size:16px;'>
                                    <label style='font-size:12px;font-style:italic;'>SVG Gebäude löschen</label>
                                    <input id='__application_pdf_nutzungsart_pattern_svg_gebaeude_loeschen' type='hidden' style='display:none;' onchange='editKonfigurationTextField(event)' data-konfiguration-textfield='map-pdf-svg-gebaeude-loeschen' data-konfiguration-style-id='svg_gebaeude_loeschen' value='"@
        + opt_or(opt_view(c.gebauede_loeschen_svg), ""@)
        + "'></input>
                                    <input type='file' accept='.svg' style='display:flex;' class='konfiguration-editfield1' data-konfiguration-style-id='svg_gebaeude_loeschen' data-konfiguration-textfield='map-pdf-nutzungsart-pattern-svg' onchange='editKonfigurationInputFile(event)'></input>
                                </div>
                            </div>
                        </div>
                    "@
}

/// The PDF labels page.
pub open spec fn popover_beschriftungen() -> Seq<char> {
    "
                        <div style='padding:5px 0px;display:flex;flex-direction:column;flex-grow:1;'>
                            <div>
                                <h2 style='font-size:20px;'>PDF Beschriftungen</h2>
                                
                            </div>
                        </div>
                    "@
}

/// The PDF symbols page.
pub open spec fn popover_symbole() -> Seq<char> {
    "
                        <div style='padding:5px 0px;display:flex;flex-direction:column;flex-grow:1;'>
                            <div>
                                <h2 style='font-size:20px;'>PDF Symbole</h2>
                                
                            </div>
                        </div>
                    "@
}

/// The open settings page.
pub open spec fn popover_main(cw: ConfigurationView, k: Konfiguration) -> Seq<char> {
    "<div style='display:flex;flex-grow:1;padding:0px 20px;line-height: 1.2;'>"@
        + popover_main_content(cw, k)
        + "</div>"@
}

/// The settings.
pub open spec fn popover_configuration(cw: ConfigurationView, k: Konfiguration, a: PopoverAssets) -> Seq<char> {
    "
                <div style='box-shadow:0px 0px 100px #22222288;pointer-events:initial;width:1000px;position:relative;display:flex;flex-direction:column;margin:10px auto;border:1px solid grey;background:white;padding:100px;border-radius:5px;' onmousedown='event.stopPropagation();' onmouseup='event.stopPropagation();'>
                
                    "@
        + popover_close(a)
        + "
                    
                    <h2 style='font-size:24px;margin-bottom:15px;font-family:sans-serif;'>Konfiguration</h2>

                    <div style='display:flex;flex-direction:row;flex-grow:1;width:100%;'>
                        "@
        + popover_sidebar(cw, a)
        + "
                        "@
        + popover_main(cw, k)
        + "
                    </div>
                </div>
            "@
}

/// The context menu at its position.
pub open spec fn popover_context_menu(cm: ContextMenuData) -> Seq<char> {
    "
                <div style='pointer-events:unset;padding:1px;position:absolute;left:"@
        + cm.x@
        + "px;top:"@
        + cm.y@
        + "px;background:white;border-radius:5px;box-shadow:0px 0px 5px #444;'>
                    <div style='border:1px solid #efefef;border-radius:5px;'>
                        <p style='padding:5px 10px;font-size:10px;color:#444;margin-bottom:5px;'>Klassifiziere Seite als...</p>
                        <div style='line-height:1.5;cursor:pointer;'>
                            <div class='kontextmenü-eintrag' data-seite-neu='bv-horz' data-seite='"@
        + "0"@
        + "' onmousedown='klassifiziereSeiteNeu(event);'>
                                Bestandsverzeichnis (Querformat)
                            </div>
                        </div>
                    </div>
                </div>"@
}

/// The layer over the page that holds the popover.
pub open spec fn popover_outer(color: Seq<char>, overflow: Seq<char>, pc: Seq<char>) -> Seq<char> {
    "
        <div style='background:"@
        + color
        + ";width: 100%;height: 100%;min-height: 100%;z-index:1001;pointer-events:all;"@
        + overflow
        + "' onmouseup='closePopOver()'>
            "@
        + pc
        + "
        </div>"@
}
fn push_close(v: &mut Vec<char>, a: &PopoverAssets)
    ensures
        final(v)@ == old(v)@ + popover_close(*a),
{
    let ghost v0 = v@;
    push_str(v, "
    <div style='position:absolute;top:50px;z-index:9999;right:-25px;background:white;border-radius:10px;box-shadow: 0px 0px 10px #cccccc88;cursor:pointer;' onmouseup='closePopOver()'>
        <img src='data:image/png;base64,");
    push_str(v, a.icon_close.as_str());
    push_str(v, "' style='width:50px;height:50px;cursor:pointer;' />
    </div>");
    assert(v@ =~= v0 + popover_close(*a));
}

fn push_info(v: &mut Vec<char>, a: &PopoverAssets)
    ensures
        final(v)@ == old(v)@ + popover_info(*a),
{
    let ghost v0 = v@;
    push_str(v, "
            <div style='box-shadow:0px 0px 100px #22222288;pointer-events:initial;width:800px;display:flex;flex-direction:column;position:relative;margin:10px auto;border:1px solid grey;background:white;padding:100px;border-radius:5px;' onmousedown='event.stopPropagation();' onmouseup='event.stopPropagation();'>
                
                ");
    push_close(v, a);
    push_str(v, "

                <h2 style='font-size:24px;font-family:sans-serif;'>Digitales Projekt Version ");
    push_str(v, a.version.as_str());
    push_str(v, "</h2>
                
                <div style='padding:5px 0px;display:flex;flex-grow:1;min-height:750px;'>
                    <iframe width='auto' height='auto' src='data:text/html;base64,");
    push_str(v, a.license_base64.as_str());
    push_str(v, "' style='min-width:100%;min-height:100%;'></iframe>                       
                </div>
                                
            </div>
            ");
    assert(v@ =~= v0 + popover_info(*a));
}

fn push_help(v: &mut Vec<char>, a: &PopoverAssets)
    ensures
        final(v)@ == old(v)@ + popover_help(*a),
{
    let ghost v0 = v@;
    push_str(v, "
            <div style='box-shadow:0px 0px 100px #22222288;pointer-events:initial;width:800px;display:flex;flex-direction:column;position:relative;margin:10px auto;border:1px solid grey;background:white;padding:100px;border-radius:5px;' onmousedown='event.stopPropagation();' onmouseup='event.stopPropagation();'>

                ");
    push_close(v, a);
    push_str(v, "
                
                <h2 style='font-size:24px;font-family:sans-serif;margin-bottom:25px;'>Benutzerhandbuch</h2>
                <div style='padding:5px 0px;display:flex;flex-grow:1;line-height:1.5;min-height:750px;'>
                    <iframe src='data:text/html;base64,");
    push_str(v, a.handbook_base64.as_str());
    push_str(v, "' width='100%' height='100%' style='min-width:100%;min-height:750px;display:flex;flex-grow:1;'/>
                </div>

            </div>");
    assert(v@ =~= v0 + popover_help(*a));
}

fn push_sidebar_part1(v: &mut Vec<char>, cw: ConfigurationView, a: &PopoverAssets)
    ensures
        final(v)@ == old(v)@ + popover_sidebar_part1(cw, *a),
{
    let ghost v0 = v@;
    push_str(v, "
                <div class='__application_configuration_sidebar' style='display:flex;flex-direction:column;width:160px;min-height:750px;'>
                    
                    <div class='__application_configuration_sidebar_section");
    push_str(v, if cw == ConfigurationView::Allgemein { " active" } else { "" });
    push_str(v, "' onmouseup='activateConfigurationView(event, \"allgemein\")'>
                        <img style='width:25px;height:25px;' src='data:image/png;base64,");
    push_str(v, a.icon_settings.as_str());
    push_str(v, "'></img>
                        <p>Allgemein</p>
                    </div>
                    
                    <hr/>
                    
                    <div class='__application_configuration_sidebar_section");
    push_str(v, if cw == ConfigurationView::DarstellungBearbeitung { " active" } else { "" });
    push_str(v, "' onmouseup='activateConfigurationView(event, \"darstellung-bearbeitung\")'>
                        <img style='width:25px;height:25px;' src='data:image/png;base64,");
    push_str(v, a.icon_clean.as_str());
    assert(v@ =~= v0 + popover_sidebar_part1(cw, *a));
}

fn push_sidebar_part2(v: &mut Vec<char>, cw: ConfigurationView, a: &PopoverAssets)
    ensures
        final(v)@ == old(v)@ + popover_sidebar_part2(cw, *a),
{
    let ghost v0 = v@;
    push_str(v, "'></img>
                        <p>Bearbeitung</p>
                    </div>

                    <div class='__application_configuration_sidebar_section");
    push_str(v, if cw == ConfigurationView::DarstellungPdfAllgemein { " active" } else { "" });
    push_str(v, "' onmouseup='activateConfigurationView(event, \"darstellung-pdf-allgemein\")'>
                        <img style='width:25px;height:25px;' src='data:image/png;base64,");
    push_str(v, a.icon_clean.as_str());
    push_str(v, "'></img>
                        <p>PDF Allgemein</p>
                    </div>

                    <div class='__application_configuration_sidebar_section");
    push_str(v, if cw == ConfigurationView::DarstellungPdf { " active" } else { "" });
    push_str(v, "' onmouseup='activateConfigurationView(event, \"darstellung-pdf\")'>
                        <img style='width:25px;height:25px;' src='data:image/png;base64,");
    push_str(v, a.icon_clean.as_str());
    assert(v@ =~= v0 + popover_sidebar_part2(cw, *a));
}

fn push_sidebar_part3(v: &mut Vec<char>, cw: ConfigurationView, a: &PopoverAssets)
    ensures
        final(v)@ == old(v)@ + popover_sidebar_part3(cw, *a),
{
    let ghost v0 = v@;
    push_str(v, "'></img>
                        <p>PDF Ebenen</p>
                    </div>

                    <div class='__application_configuration_sidebar_section");
    push_str(v, if cw == ConfigurationView::PdfBeschriftungen { " active" } else { "" });
    push_str(v, "' onmouseup='activateConfigurationView(event, \"pdf-beschriftungen\")'>
                        <img style='width:25px;height:25px;' src='data:image/png;base64,");
    push_str(v, a.icon_clean.as_str());
    push_str(v, "'></img>
                        <p>PDF Beschriftungen</p>
                    </div>

                    <div class='__application_configuration_sidebar_section");
    push_str(v, if cw == ConfigurationView::PdfSymbole { " active" } else { "" });
    push_str(v, "' onmouseup='activateConfigurationView(event, \"pdf-symbole\")'>
                        <img style='width:25px;height:25px;' src='data:image/png;base64,");
    push_str(v, a.icon_clean.as_str());
    assert(v@ =~= v0 + popover_sidebar_part3(cw, *a));
}

fn push_sidebar_part4(v: &mut Vec<char>, cw: ConfigurationView, a: &PopoverAssets)
    ensures
        final(v)@ == old(v)@ + popover_sidebar_part4(cw, *a),
{
    let ghost v0 = v@;
    push_str(v, "'></img>
                        <p>PDF Symbole</p>
                    </div>

                    <div style='display:flex;min-height:50px;'></div>
                    <div class='__application_configuration_sidebar_section' onmouseup='loadSettings();'>
                        <img style='width:25px;height:25px;' src='data:image/png;base64,");
    push_str(v, a.icon_load.as_str());
    push_str(v, "'></img>
                        <p>Einstellungen laden</p>
                    </div>
                    <div class='__application_configuration_sidebar_section' onmouseup='saveSettings();'>
                        <img style='width:25px;height:25px;' src='data:image/png;base64,");
    push_str(v, a.icon_save.as_str());
    push_str(v, "'></img>
                        <p>Einstellungen speichern</p>
                    </div>
                </div>
            ");
    assert(v@ =~= v0 + popover_sidebar_part4(cw, *a));
}

fn push_sidebar(v: &mut Vec<char>, cw: ConfigurationView, a: &PopoverAssets)
    ensures
        final(v)@ == old(v)@ + popover_sidebar(cw, *a),
{
    let ghost v0 = v@;
    push_sidebar_part1(v, cw, a);
    push_sidebar_part2(v, cw, a);
    push_sidebar_part3(v, cw, a);
    push_sidebar_part4(v, cw, a);
    assert(v@ =~= v0 + popover_sidebar(cw, *a));
}

fn push_allgemein(v: &mut Vec<char>, m: &MapKonfiguration)
    ensures
        final(v)@ == old(v)@ + popover_allgemein(*m),
{
    let ghost v0 = v@;
    push_str(v, "
                    <div style='padding:5px 0px;display:flex;flex-direction:column;flex-grow:1;'>
                        <div>
                            <h2 style='font-size:20px;'>Allgemein</h2>
                            
                            <div style='display:flex;justify-content:space-between;padding:10px 0px;font-size:16px;'>
                                <label style='font-size:20px;font-style:italic;'>Basiskarte</label>
                                <input type='text' class='konfiguration-editfield1' value='");
    push_trimmed(v, &m.basemap);
    push_str(v, "' data-konfiguration-textfield='map-basiskarte' onchange='editKonfigurationTextField(event)'></input>
                            </div>
                    
                            <div style='display:flex;justify-content:space-between;padding:10px 0px;font-size:16px;'>
                                <label style='font-size:20px;font-style:italic;'>DOP Quelle</label>
                                <input type='text' class='konfiguration-editfield1' value='");
    push_trimmed(v, &m.dop_source);
    push_str(v, "' data-konfiguration-textfield='map-dop-source' onchange='editKonfigurationTextField(event)'></input>
                            </div>

                            <div style='display:flex;justify-content:space-between;padding:10px 0px;font-size:16px;'>
                                <label style='font-size:20px;font-style:italic;'>DOP Ebene</label>
                                <input type='text' class='konfiguration-editfield1' value='");
    push_trimmed(v, &m.dop_layers);
    push_str(v, "' data-konfiguration-textfield='map-dop-layer' onchange='editKonfigurationTextField(event)'></input>
                            </div>

                            <div style='display:flex;justify-content:space-between;padding:10px 0px;font-size:16px;'>
                                <label style='font-size:20px;font-style:italic;'>DGM Quelle</label>
                                <input type='text' class='konfiguration-editfield1' value='");
    push_trimmed(v, &m.dgm_source);
    push_str(v, "' data-konfiguration-textfield='map-dgm-source' onchange='editKonfigurationTextField(event)'></input>
                            </div>

                            <div style='display:flex;justify-content:space-between;padding:10px 0px;font-size:16px;'>
                                <label style='font-size:20px;font-style:italic;'>DGM Ebene</label>
                                <input type='text' class='konfiguration-editfield1' value='");
    push_trimmed(v, &m.dgm_layers);
    push_str(v, "' data-konfiguration-textfield='map-dgm-layer' onchange='editKonfigurationTextField(event)'></input>
                            </div>
                        </div>
                    </div>
                ");
    assert(v@ =~= v0 + popover_allgemein(*m));
}

fn push_bearbeitung_row_part1(v: &mut Vec<char>, k: &String, s: &EbenenStyle)
    ensures
        final(v)@ == old(v)@ + popover_bearbeitung_row_part1(k@, style_view(*s)),
{
    let ghost v0 = v@;
    push_str(v, "
                            <div style='padding:10px;margin-bottom:5px;background:#cccccc;'>
                                <div style='display: flex;flex-direction: row;justify-content: flex-end;'>
                                    <input type='text' class='konfiguration-editfield1' value='");
    push_trimmed_str(v, s.name.as_str());
    push_str(v, "' data-konfiguration-style-id='");
    push_str(v, k.as_str());
    push_str(v, "' data-konfiguration-textfield='map-style-name' onchange='editKonfigurationTextField(event)' style='flex-grow:1;'></input>
                                    <button onclick='moveOrDeleteKonfigurationField(event);' data-move-type='move-up' data-konfiguration-type='style' data-konfiguration-style-id='");
    push_str(v, k.as_str());
    push_str(v, "' style='padding: 2px 5px;margin-left: 5px;cursor: pointer;border-radius: 3px;'>^ Layer anheben</button>
                                    <button onclick='moveOrDeleteKonfigurationField(event);' data-move-type='move-down'  data-konfiguration-type='style' data-konfiguration-style-id='");
    push_str(v, k.as_str());
    assert(v@ =~= v0 + popover_bearbeitung_row_part1(k@, style_view(*s)));
}

fn push_bearbeitung_row_part2(v: &mut Vec<char>, k: &String, s: &EbenenStyle)
    ensures
        final(v)@ == old(v)@ + popover_bearbeitung_row_part2(k@, style_view(*s)),
{
    let ghost v0 = v@;
    push_str(v, "' style='padding: 2px 5px;margin-left: 5px;cursor: pointer;border-radius: 3px;'>v Layer absenken</button>
                                    <button onclick='moveOrDeleteKonfigurationField(event);' data-move-type='delete' data-konfiguration-type='style' data-konfiguration-style-id='");
    push_str(v, k.as_str());
    push_str(v, "' style='padding: 2px 5px;margin-left: 5px;cursor: pointer;border-radius: 3px;'>Layer löschen</button>
                                </div>
                                <div style='display:flex;justify-content:space-between;padding:10px 0px;font-size:16px;'>
                                    <label style='font-size:12px;font-style:italic;'>Füllung</label>
                                    <input type='color' class='konfiguration-editfield1' value='");
    push_opt_or(v, &s.fill_color, "#000000");
    push_str(v, "' data-konfiguration-style-id='");
    push_str(v, k.as_str());
    push_str(v, "' data-konfiguration-textfield='map-style-fillcolor' onchange='editKonfigurationTextField(event)'></input>
                                </div>
                                <div style='display:flex;justify-content:space-between;padding:10px 0px;font-size:16px;'>
                                    <label style='font-size:12px;font-style:italic;'>Umrandung</label>
                                    <input type='color' class='konfiguration-editfield1' value='");
    push_opt_or(v, &s.outline_color, "#000000");
    assert(v@ =~= v0 + popover_bearbeitung_row_part2(k@, style_view(*s)));
}

fn push_bearbeitung_row_part3(v: &mut Vec<char>, k: &String, s: &EbenenStyle)
    ensures
        final(v)@ == old(v)@ + popover_bearbeitung_row_part3(k@, style_view(*s)),
{
    let ghost v0 = v@;
    push_str(v, "' data-konfiguration-style-id='");
    push_str(v, k.as_str());
    push_str(v, "' data-konfiguration-textfield='map-style-outlinecolor' onchange='editKonfigurationTextField(event)'></input>
                                </div>
                                <div style='display:flex;justify-content:space-between;padding:10px 0px;font-size:16px;'>
                                    <label style='font-size:12px;font-style:italic;'>Umrandung</label>
                                    <input type='number' class='konfiguration-editfield1' value='");
    push_opt_or(v, &s.outline_thickness, "0");
    push_str(v, "' minval='0' maxval='10' data-konfiguration-style-id='");
    push_str(v, k.as_str());
    push_str(v, "' data-konfiguration-textfield='map-style-outlinethickness' onchange='editKonfigurationTextField(event)'></input>
                                </div>
                            </div>
                            ");
    assert(v@ =~= v0 + popover_bearbeitung_row_part3(k@, style_view(*s)));
}

fn push_bearbeitung_row(v: &mut Vec<char>, k: &String, s: &EbenenStyle)
    ensures
        final(v)@ == old(v)@ + popover_bearbeitung_row(k@, style_view(*s)),
{
    let ghost v0 = v@;
    push_bearbeitung_row_part1(v, k, s);
    push_bearbeitung_row_part2(v, k, s);
    push_bearbeitung_row_part3(v, k, s);
    assert(v@ =~= v0 + popover_bearbeitung_row(k@, style_view(*s)));
}

fn push_bearbeitung(v: &mut Vec<char>, c: &StyleConfig)
    ensures
        final(v)@ == old(v)@ + popover_bearbeitung(*c),
{
    let ghost v0 = v@;
    push_str(v, "
                        <div style='padding:5px 0px;display:flex;flex-direction:column;flex-grow:1;'>
                            <div>
                                <h2 style='font-size:20px;'>Bearbeitung</h2>
                                
                                <button onclick='konfigurationLayerNeu(event)' data-konfiguration-type='style' style='display: flex;width: 100%;margin-bottom: 10px;margin-top: 10px;cursor: pointer;background: #d1e9d7;padding: 10px;border-radius: 5px;'>Neue Ebene anlegen</button>
                                
                                <div style='max-height:500px;overflow-y:scroll'>
                                ");
    push_style_rows(v, c);
    push_str(v, "
                                </div>
                            </div>
                        </div>
                    ");
    assert(v@ =~= v0 + popover_bearbeitung(*c));
}

fn push_option(v: &mut Vec<char>, k: &str, w: &str)
    ensures
        final(v)@ == old(v)@ + popover_option(k@, w@),
{
    let ghost v0 = v@;
    push_str(v, "<option value='");
    push_str(v, k);
    push_str(v, "'>");
    push_str(v, w);
    push_str(v, "</option>");
    assert(v@ =~= v0 + popover_option(k@, w@));
}

fn push_pdf_row_part1(v: &mut Vec<char>, k: &String, s: &PdfEbenenStyle)
    ensures
        final(v)@ == old(v)@ + popover_pdf_row_part1(k@, pdf_style_view(*s)),
{
    let ghost v0 = v@;
    push_str(v, "
                            <div style='padding:10px;margin-bottom:5px;background:#cccccc;'>
                                <div style='display: flex;flex-direction: row;justify-content: flex-end;'>
                                    <input type='text' class='konfiguration-editfield1' value='");
    push_str(v, s.kuerzel.as_str());
    push_str(v, "' data-konfiguration-style-id='");
    push_str(v, k.as_str());
    push_str(v, "' data-konfiguration-textfield='map-pdf-nutzungsart-name' onchange='editKonfigurationTextField(event)' style='flex-grow:1;'></input>
                                    <button onclick='moveOrDeleteKonfigurationField(event);' data-move-type='move-up'  data-konfiguration-type='pdf-nutzungsarten' data-konfiguration-style-id='");
    push_str(v, k.as_str());
    push_str(v, "' style='padding: 2px 5px;margin-left: 5px;cursor: pointer;border-radius: 3px;'>^ Layer anheben</button>
                                    <button onclick='moveOrDeleteKonfigurationField(event);' data-move-type='move-down'  data-konfiguration-type='pdf-nutzungsarten' data-konfiguration-style-id='");
    push_str(v, k.as_str());
    assert(v@ =~= v0 + popover_pdf_row_part1(k@, pdf_style_view(*s)));
}

fn push_pdf_row_part2(v: &mut Vec<char>, k: &String, s: &PdfEbenenStyle)
    ensures
        final(v)@ == old(v)@ + popover_pdf_row_part2(k@, pdf_style_view(*s)),
{
    let ghost v0 = v@;
    push_str(v, "' style='padding: 2px 5px;margin-left: 5px;cursor: pointer;border-radius: 3px;'>v Layer absenken</button>
                                    <button onclick='moveOrDeleteKonfigurationField(event);' data-move-type='delete'  data-konfiguration-type='pdf-nutzungsarten' data-konfiguration-style-id='");
    push_str(v, k.as_str());
    push_str(v, "' style='padding: 2px 5px;margin-left: 5px;cursor: pointer;border-radius: 3px;'>Layer löschen</button>
                                </div>
                                <div style='display:flex;justify-content:space-between;padding:10px 0px;font-size:16px;'>
                                    <label style='font-size:12px;font-style:italic;'>Füllung</label>
                                    <input type='color' class='konfiguration-editfield1' value='");
    push_opt_or(v, &s.fill_color, "#000000");
    push_str(v, "' data-konfiguration-style-id='");
    push_str(v, k.as_str());
    push_str(v, "' data-konfiguration-textfield='map-pdf-nutzungsart-fillcolor' onchange='editKonfigurationTextField(event)'></input>
                                </div>
                                <div style='display:flex;justify-content:space-between;padding:10px 0px;font-size:16px;'>
                                    <label style='font-size:12px;font-style:italic;'>Umrandung</label>
                                    <input type='color' class='konfiguration-editfield1' value='");
    push_opt_or(v, &s.outline_color, "#000000");
    assert(v@ =~= v0 + popover_pdf_row_part2(k@, pdf_style_view(*s)));
}

fn push_pdf_row_part3(v: &mut Vec<char>, k: &String, s: &PdfEbenenStyle)
    ensures
        final(v)@ == old(v)@ + popover_pdf_row_part3(k@, pdf_style_view(*s)),
{
    let ghost v0 = v@;
    push_str(v, "' data-konfiguration-style-id='");
    push_str(v, k.as_str());
    push_str(v, "' data-konfiguration-textfield='map-pdf-nutzungsart-outlinecolor' onchange='editKonfigurationTextField(event)'></input>
                                </div>
                                <div style='display:flex;justify-content:space-between;padding:10px 0px;font-size:16px;'>
                                    <label style='font-size:12px;font-style:italic;'>Umrandung</label>
                                    <input type='number' class='konfiguration-editfield1' value='");
    push_opt_or(v, &s.outline_thickness, "0");
    push_str(v, "' minval='0' maxval='10' data-konfiguration-style-id='");
    push_str(v, k.as_str());
    push_str(v, "' data-konfiguration-textfield='map-pdf-nutzungsart-outlinethickness' onchange='editKonfigurationTextField(event)'></input>
                                </div>
                                <div style='display:flex;justify-content:space-between;padding:10px 0px;font-size:16px;'>
                                    <label style='font-size:12px;font-style:italic;'>Strichelung Umrandung</label>
                                    <input type='text' class='konfiguration-editfield1' value='");
    push_opt_or(v, &s.outline_dash, "");
    assert(v@ =~= v0 + popover_pdf_row_part3(k@, pdf_style_view(*s)));
}

fn push_pdf_row_part4(v: &mut Vec<char>, k: &String, s: &PdfEbenenStyle)
    ensures
        final(v)@ == old(v)@ + popover_pdf_row_part4(k@, pdf_style_view(*s)),
{
    let ghost v0 = v@;
    push_str(v, "' data-konfiguration-style-id='");
    push_str(v, k.as_str());
    push_str(v, "' data-konfiguration-textfield='map-pdf-nutzungsart-outlinedash' onchange='editKonfigurationTextField(event)'></input>
                                </div>
                                <div style='display:flex;justify-content:space-between;padding:10px 0px;font-size:16px;'>
                                    <label style='font-size:12px;font-style:italic;'>Umrandung überdrucken (Overprint)</label>
                                    <input type='checkbox' ");
    push_str(v, if s.outline_overprint { "checked='checked'" } else { "" });
    push_str(v, " class='konfiguration-editfield1' data-konfiguration-style-id='");
    push_str(v, k.as_str());
    push_str(v, "' data-konfiguration-textfield='map-pdf-nutzungsart-outline-overprint' onchange='editKonfigurationTextField(event)'></input>
                                </div>

                                <div style='display:flex;justify-content:space-between;padding:10px 0px;font-size:16px;'>
                                    <label style='font-size:12px;font-style:italic;'>Muster</label>
                                    <input id='__application_pdf_nutzungsart_pattern_");
    push_str(v, k.as_str());
    assert(v@ =~= v0 + popover_pdf_row_part4(k@, pdf_style_view(*s)));
}

fn push_pdf_row_part5(v: &mut Vec<char>, k: &String, s: &PdfEbenenStyle)
    ensures
        final(v)@ == old(v)@ + popover_pdf_row_part5(k@, pdf_style_view(*s)),
{
    let ghost v0 = v@;
    push_str(v, "' type='hidden' style='display:none;' onchange='editKonfigurationTextField(event)' data-konfiguration-textfield='map-pdf-nutzungsart-pattern-svg' data-konfiguration-style-id='");
    push_str(v, k.as_str());
    push_str(v, "' value='");
    push_opt_or(v, &s.pattern_svg, "");
    push_str(v, "'></input>
                                    <input type='file' accept='.svg' style='display:flex;' class='konfiguration-editfield1' data-konfiguration-style-id='");
    push_str(v, k.as_str());
    push_str(v, "' data-konfiguration-textfield='map-pdf-nutzungsart-pattern-svg' onchange='editKonfigurationInputFile(event)'></input>
                                </div>
                                
                                <div style='display:flex;justify-content:space-between;padding:10px 0px;font-size:16px;'>
                                    <label style='font-size:12px;font-style:italic;'>Platzierung Muster</label>
                                    <select value='");
    push_opt_or(v, &s.pattern_placement, "");
    assert(v@ =~= v0 + popover_pdf_row_part5(k@, pdf_style_view(*s)));
}

fn push_pdf_row_part6(v: &mut Vec<char>, k: &String, s: &PdfEbenenStyle)
    ensures
        final(v)@ == old(v)@ + popover_pdf_row_part6(k@, pdf_style_view(*s)),
{
    let ghost v0 = v@;
    push_str(v, "' style='display:flex;flex-grow:1;max-width:300px;' data-konfiguration-style-id='");
    push_str(v, k.as_str());
    push_str(v, "' data-konfiguration-textfield='map-pdf-nutzungsart-pattern-type' onchange='editKonfigurationTextField(event)'>
                                        ");
    push_pattern_options(v);
    push_str(v, "
                                    </select>
                                </div>

                                <div style='display:flex;justify-content:space-between;padding:10px 0px;font-size:16px;'>
                                    <label style='font-size:12px;font-style:italic;'>Beschriftung Schrift</label>
                                    <input type='text' class='konfiguration-editfield1' value='");
    push_opt_or(v, &s.lagebez_ohne_hsnr.font, "");
    push_str(v, "' data-konfiguration-style-id='");
    push_str(v, k.as_str());
    assert(v@ =~= v0 + popover_pdf_row_part6(k@, pdf_style_view(*s)));
}

fn push_pdf_row_part7(v: &mut Vec<char>, k: &String, s: &PdfEbenenStyle)
    ensures
        final(v)@ == old(v)@ + popover_pdf_row_part7(k@, pdf_style_view(*s)),
{
    let ghost v0 = v@;
    push_str(v, "' data-konfiguration-textfield='map-pdf-nutzungsart-beschriftung-schriftart' onchange='editKonfigurationTextField(event)'></input>
                                </div>

                                <div style='display:flex;justify-content:space-between;padding:10px 0px;font-size:16px;'>
                                    <label style='font-size:12px;font-style:italic;'>Beschriftung Schriftgröße</label>
                                    <input type='number' class='konfiguration-editfield1' value='");
    push_opt_or(v, &s.lagebez_ohne_hsnr.fontsize, "0");
    push_str(v, "' data-konfiguration-style-id='");
    push_str(v, k.as_str());
    push_str(v, "' minval='0' maxval='50' data-konfiguration-textfield='map-pdf-nutzungsart-beschriftung-schriftgroesse' onchange='editKonfigurationTextField(event)'></input>
                                </div>

                                <div style='display:flex;justify-content:space-between;padding:10px 0px;font-size:16px;'>
                                    <label style='font-size:12px;font-style:italic;'>Beschriftung Schrift</label>
                                    <input type='color' class='konfiguration-editfield1' value='");
    push_opt_or(v, &s.lagebez_ohne_hsnr.color, "#000000");
    push_str(v, "' data-konfiguration-style-id='");
    push_str(v, k.as_str());
    assert(v@ =~= v0 + popover_pdf_row_part7(k@, pdf_style_view(*s)));
}

fn push_pdf_row_part8(v: &mut Vec<char>, k: &String, s: &PdfEbenenStyle)
    ensures
        final(v)@ == old(v)@ + popover_pdf_row_part8(k@, pdf_style_view(*s)),
{
    let ghost v0 = v@;
    push_str(v, "' data-konfiguration-textfield='map-pdf-nutzungsart-beschriftung-schriftfarbe' onchange='editKonfigurationTextField(event)'></input>
                                </div>
                            </div>
                            ");
    assert(v@ =~= v0 + popover_pdf_row_part8(k@, pdf_style_view(*s)));
}

fn push_pdf_row(v: &mut Vec<char>, k: &String, s: &PdfEbenenStyle)
    ensures
        final(v)@ == old(v)@ + popover_pdf_row(k@, pdf_style_view(*s)),
{
    let ghost v0 = v@;
    push_pdf_row_part1(v, k, s);
    push_pdf_row_part2(v, k, s);
    push_pdf_row_part3(v, k, s);
    push_pdf_row_part4(v, k, s);
    push_pdf_row_part5(v, k, s);
    push_pdf_row_part6(v, k, s);
    push_pdf_row_part7(v, k, s);
    push_pdf_row_part8(v, k, s);
    assert(v@ =~= v0 + popover_pdf_row(k@, pdf_style_view(*s)));
}

fn push_pdf(v: &mut Vec<char>, c: &PdfStyleConfig)
    ensures
        final(v)@ == old(v)@ + popover_pdf(*c),
{
    let ghost v0 = v@;
    push_str(v, "
                        <div style='padding:5px 0px;display:flex;flex-direction:column;flex-grow:1;'>
                            <div>
                                <h2 style='font-size:20px;'>PDF Ebenen</h2>
                                
                                <!-- NORDPFEIL SVG ... -->

                                <button onclick='konfigurationLayerNeu(event)' data-konfiguration-type='pdf-nutzungsarten' style='display: flex;width: 100%;margin-bottom: 10px;margin-top: 10px;cursor: pointer;background: #d1e9d7;padding: 10px;border-radius: 5px;'>Neue Ebene anlegen</button>

                                <button onclick='konfigurationLayerAlle(event)' data-konfiguration-type='style' style='display: flex;width: 100%;margin-bottom: 10px;margin-top: 10px;cursor: pointer;background: #d1e9d7;padding: 10px;border-radius: 5px;'>Alle sichtbaren Kürzel übernehmen</button>

                                <div style='max-height:500px;overflow-y:scroll'>
                                ");
    push_pdf_rows(v, c);
    push_str(v, "
                                </div>
                                
                            </div>
                        </div>
                    ");
    assert(v@ =~= v0 + popover_pdf(*c));
}

fn push_pdf_allgemein(v: &mut Vec<char>, c: &PdfStyleConfig)
    ensures
        final(v)@ == old(v)@ + popover_pdf_allgemein(*c),
{
    let ghost v0 = v@;
    push_str(v, "
                        <div style='padding:5px 0px;display:flex;flex-direction:column;flex-grow:1;'>
                            <div>
                                <h2 style='font-size:20px;'>PDF Allgemein</h2>
                                
                                <div style='display:flex;justify-content:space-between;padding:10px 0px;font-size:16px;'>
                                    <label style='font-size:12px;font-style:italic;'>SVG Grenzpunkt</label>
                                    <input id='__application_pdf_nutzungsart_pattern_svg_grenzpunkt' type='hidden' style='display:none;' onchange='editKonfigurationTextField(event)' data-konfiguration-textfield='map-pdf-svg-grenzpunkt' data-konfiguration-style-id='svg_grenzpunkt' value='");
    push_opt_or(v, &c.grenzpunkt_svg, "");
    push_str(v, "'></input>
                                    <input type='file' accept='.svg' style='display:flex;' class='konfiguration-editfield1' data-konfiguration-style-id='svg_grenzpunkt' data-konfiguration-textfield='map-pdf-nutzungsart-pattern-svg' onchange='editKonfigurationInputFile(event)'></input>
                                </div>

                                <div style='display:flex;justify-content:space-between;padding:10px 0px;font-size:16px;'>
                                    <label style='font-size:12px;font-style:italic;'>SVG Pfeil</label>
                                    <input id='__application_pdf_nutzungsart_pattern_svg_pfeil' type='hidden' style='display:none;' onchange='editKonfigurationTextField(event)' data-konfiguration-textfield='map-pdf-svg-pfeil' data-konfiguration-style-id='svg_pfeil' value='");
    push_opt_or(v, &c.pfeil_svg, "");
    push_str(v, "'></input>
                                    <input type='file' accept='.svg' style='display:flex;' class='konfiguration-editfield1' data-konfiguration-style-id='svg_pfeil' data-konfiguration-textfield='map-pdf-nutzungsart-pattern-svg' onchange='editKonfigurationInputFile(event)'></input>
                                </div>

                                <div style='display:flex;justify-content:space-between;padding:10px 0px;font-size:16px;'>
                                    <label style='font-size:12px;font-style:italic;'>SVG Nordpfeil</label>
                                    <input id='__application_pdf_nutzungsart_pattern_svg_nordpfeil' type='hidden' style='display:none;' onchange='editKonfigurationTextField(event)' data-konfiguration-textfield='map-pdf-svg-nordpfeil' data-konfiguration-style-id='svg_nordpfeil' value='");
    push_opt_or(v, &c.nordpfeil_svg, "");
    push_str(v, "'></input>
                                    <input type='file' accept='.svg' style='display:flex;' class='konfiguration-editfield1' data-konfiguration-style-id='svg_nordpfeil' data-konfiguration-textfield='map-pdf-nutzungsart-pattern-svg' onchange='editKonfigurationInputFile(event)'></input>
                                </div>

                                <div style='display:flex;justify-content:space-between;padding:10px 0px;font-size:16px;'>
                                    <label style='font-size:12px;font-style:italic;'>SVG Gebäude löschen</label>
                                    <input id='__application_pdf_nutzungsart_pattern_svg_gebaeude_loeschen' type='hidden' style='display:none;' onchange='editKonfigurationTextField(event)' data-konfiguration-textfield='map-pdf-svg-gebaeude-loeschen' data-konfiguration-style-id='svg_gebaeude_loeschen' value='");
    push_opt_or(v, &c.gebauede_loeschen_svg, "");
    push_str(v, "'></input>
                                    <input type='file' accept='.svg' style='display:flex;' class='konfiguration-editfield1' data-konfiguration-style-id='svg_gebaeude_loeschen' data-konfiguration-textfield='map-pdf-nutzungsart-pattern-svg' onchange='editKonfigurationInputFile(event)'></input>
                                </div>
                            </div>
                        </div>
                    ");
    assert(v@ =~= v0 + popover_pdf_allgemein(*c));
}

fn push_beschriftungen(v: &mut Vec<char>)
    ensures
        final(v)@ == old(v)@ + popover_beschriftungen(),
{
    let ghost v0 = v@;
    push_str(v, "
                        <div style='padding:5px 0px;display:flex;flex-direction:column;flex-grow:1;'>
                            <div>
                                <h2 style='font-size:20px;'>PDF Beschriftungen</h2>
                                
                            </div>
                        </div>
                    ");
    assert(v@ =~= v0 + popover_beschriftungen());
}

fn push_symbole(v: &mut Vec<char>)
    ensures
        final(v)@ == old(v)@ + popover_symbole(),
{
    let ghost v0 = v@;
    push_str(v, "
                        <div style='padding:5px 0px;display:flex;flex-direction:column;flex-grow:1;'>
                            <div>
                                <h2 style='font-size:20px;'>PDF Symbole</h2>
                                
                            </div>
                        </div>
                    ");
    assert(v@ =~= v0 + popover_symbole());
}

fn push_main(v: &mut Vec<char>, cw: ConfigurationView, k: &Konfiguration)
    ensures
        final(v)@ == old(v)@ + popover_main(cw, *k),
{
    let ghost v0 = v@;
    push_str(v, "<div style='display:flex;flex-grow:1;padding:0px 20px;line-height: 1.2;'>");
    push_main_content(v, cw, k);
    push_str(v, "</div>");
    assert(v@ =~= v0 + popover_main(cw, *k));
}

fn push_configuration(v: &mut Vec<char>, cw: ConfigurationView, k: &Konfiguration, a: &PopoverAssets)
    ensures
        final(v)@ == old(v)@ + popover_configuration(cw, *k, *a),
{
    let ghost v0 = v@;
    push_str(v, "
                <div style='box-shadow:0px 0px 100px #22222288;pointer-events:initial;width:1000px;position:relative;display:flex;flex-direction:column;margin:10px auto;border:1px solid grey;background:white;padding:100px;border-radius:5px;' onmousedown='event.stopPropagation();' onmouseup='event.stopPropagation();'>
                
                    ");
    push_close(v, a);
    push_str(v, "
                    
                    <h2 style='font-size:24px;margin-bottom:15px;font-family:sans-serif;'>Konfiguration</h2>

                    <div style='display:flex;flex-direction:row;flex-grow:1;width:100%;'>
                        ");
    push_sidebar(v, cw, a);
    push_str(v, "
                        ");
    push_main(v, cw, k);
    push_str(v, "
                    </div>
                </div>
            ");
    assert(v@ =~= v0 + popover_configuration(cw, *k, *a));
}

fn push_context_menu(v: &mut Vec<char>, cm: &ContextMenuData)
    ensures
        final(v)@ == old(v)@ + popover_context_menu(*cm),
{
    let ghost v0 = v@;
    push_str(v, "
                <div style='pointer-events:unset;padding:1px;position:absolute;left:");
    push_str(v, cm.x.as_str());
    push_str(v, "px;top:");
    push_str(v, cm.y.as_str());
    push_str(v, "px;background:white;border-radius:5px;box-shadow:0px 0px 5px #444;'>
                    <div style='border:1px solid #efefef;border-radius:5px;'>
                        <p style='padding:5px 10px;font-size:10px;color:#444;margin-bottom:5px;'>Klassifiziere Seite als...</p>
                        <div style='line-height:1.5;cursor:pointer;'>
                            <div class='kontextmenü-eintrag' data-seite-neu='bv-horz' data-seite='");
    push_str(v, "0");
    push_str(v, "' onmousedown='klassifiziereSeiteNeu(event);'>
                                Bestandsverzeichnis (Querformat)
                            </div>
                        </div>
                    </div>
                </div>");
    assert(v@ =~= v0 + popover_context_menu(*cm));
}

fn push_outer(v: &mut Vec<char>, color: &str, overflow: &str, pc: &str)
    ensures
        final(v)@ == old(v)@ + popover_outer(color@, overflow@, pc@),
{
    let ghost v0 = v@;
    push_str(v, "
        <div style='background:");
    push_str(v, color);
    push_str(v, ";width: 100%;height: 100%;min-height: 100%;z-index:1001;pointer-events:all;");
    push_str(v, overflow);
    push_str(v, "' onmouseup='closePopOver()'>
            ");
    push_str(v, pc);
    push_str(v, "
        </div>");
    assert(v@ =~= v0 + popover_outer(color@, overflow@, pc@));
}

fn push_opt_or(v: &mut Vec<char>, o: &Option<String>, d: &str)
    ensures
        final(v)@ == old(v)@ + opt_or(opt_view(*o), d@),
{
    match o {
        Some(s) => push_str(v, s.as_str()),
        None => push_str(v, d),
    }
}

fn push_trimmed_str(v: &mut Vec<char>, s: &str)
    ensures
        final(v)@ == old(v)@ + trim(s@),
{
    let t = trim_str(s);
    push_str(v, t.as_str());
}

fn push_trimmed(v: &mut Vec<char>, o: &Option<String>)
    ensures
        final(v)@ == old(v)@ + trim(opt_or(opt_view(*o), ""@)),
{
    match o {
        Some(s) => push_trimmed_str(v, s.as_str()),
        None => push_trimmed_str(v, ""),
    }
}

fn push_pattern_options(v: &mut Vec<char>)
    ensures
        final(v)@ == old(v)@ + pattern_options(),
{
    let ghost v0 = v@;
    push_option(v, "none", "Kein Muster");
    push_option(v, "mitte", "mittig platzieren");
    push_option(v, "pattern", "Wiederholen (kein Versatz)");
    push_option(v, "pattern-alternate", "Mit Versatz wiederholen");
    assert(v@ =~= v0 + pattern_options());
}

#[verifier::spinoff_prover]
#[verifier::rlimit(40)]
fn push_style_rows(v: &mut Vec<char>, c: &StyleConfig)
    ensures
        final(v)@ == old(v)@ + concat_all(
            spec_styles_sorted(*c).map_values(
                |e: (Seq<char>, EbenenStyleView)| popover_bearbeitung_row(e.0, e.1),
            ),
        ),
{
    let sorted = c.get_styles_sorted();
    let ghost rows = styled_views(sorted@).map_values(
        |e: (Seq<char>, EbenenStyleView)| popover_bearbeitung_row(e.0, e.1),
    );
    let ghost v0 = v@;
    let mut i: usize = 0;
    assert(rows.take(0) =~= Seq::<Seq<char>>::empty());
    assert(v@ =~= v0 + concat_all(rows.take(0)));
    while i < sorted.len()
        invariant
            i <= sorted@.len(),
            rows == styled_views(sorted@).map_values(
                |e: (Seq<char>, EbenenStyleView)| popover_bearbeitung_row(e.0, e.1),
            ),
            v@ == v0 + concat_all(rows.take(i as int)),
        decreases sorted.len() - i,
    {
        push_bearbeitung_row(v, &sorted[i].0, &sorted[i].1);
        assert(rows.take(i + 1).drop_last() =~= rows.take(i as int));
        assert(rows[i as int] == popover_bearbeitung_row(sorted@[i as int].0@, style_view(sorted@[i as int].1)));
        assert(v@ =~= v0 + concat_all(rows.take(i + 1)));
        i = i + 1;
    }
    assert(rows.take(sorted@.len() as int) =~= rows);
}

#[verifier::spinoff_prover]
#[verifier::rlimit(40)]
fn push_pdf_rows(v: &mut Vec<char>, c: &PdfStyleConfig)
    ensures
        final(v)@ == old(v)@ + concat_all(
            spec_nutzungsarten_sorted(*c).map_values(
                |e: (Seq<char>, PdfEbenenStyleView)| popover_pdf_row(e.0, e.1),
            ),
        ),
{
    let sorted = c.get_nutzungsarten_sorted();
    let ghost rows = pdf_styled_views(sorted@).map_values(
        |e: (Seq<char>, PdfEbenenStyleView)| popover_pdf_row(e.0, e.1),
    );
    let ghost v0 = v@;
    let mut i: usize = 0;
    assert(rows.take(0) =~= Seq::<Seq<char>>::empty());
    assert(v@ =~= v0 + concat_all(rows.take(0)));
    while i < sorted.len()
        invariant
            i <= sorted@.len(),
            rows == pdf_styled_views(sorted@).map_values(
                |e: (Seq<char>, PdfEbenenStyleView)| popover_pdf_row(e.0, e.1),
            ),
            v@ == v0 + concat_all(rows.take(i as int)),
        decreases sorted.len() - i,
    {
        push_pdf_row(v, &sorted[i].0, &sorted[i].1);
        assert(rows.take(i + 1).drop_last() =~= rows.take(i as int));
        assert(rows[i as int] == popover_pdf_row(sorted@[i as int].0@, pdf_style_view(sorted@[i as int].1)));
        assert(v@ =~= v0 + concat_all(rows.take(i + 1)));
        i = i + 1;
    }
    assert(rows.take(sorted@.len() as int) =~= rows);
}

fn push_main_content(v: &mut Vec<char>, cw: ConfigurationView, k: &Konfiguration)
    ensures
        final(v)@ == old(v)@ + popover_main_content(cw, *k),
{
    match cw {
        ConfigurationView::Allgemein => push_allgemein(v, &k.map),
        ConfigurationView::DarstellungBearbeitung => push_bearbeitung(v, &k.style),
        ConfigurationView::DarstellungPdf => push_pdf(v, &k.pdf),
        ConfigurationView::DarstellungPdfAllgemein => push_pdf_allgemein(v, &k.pdf),
        ConfigurationView::PdfBeschriftungen => push_beschriftungen(v),
        ConfigurationView::PdfSymbole => push_symbole(v),
    }
}

/// The popover over the page, for the page's JavaScript: the version and
/// licenses, the handbook, the settings (the open page of them) or the
/// context menu; nothing where none is open.
pub fn render_popover_content(rpc_data: &UiData, konfiguration: &Konfiguration, assets: &PopoverAssets) -> (r: String)
    ensures
        r@ == spec_popover_content(*rpc_data, *konfiguration, *assets),
{
    let ps = match &rpc_data.popover_state {
        None => {
            return String::new();
        },
        Some(ps) => ps,
    };
    let open = rpc_data.is_context_menu_open();
    let color = if !open {
        "rgba(0, 0, 0, 0.5)"
    } else {
        "transparent"
    };
    let overflow = if open {
        ""
    } else {
        "overflow:auto;"
    };
    let mut pcv: Vec<char> = Vec::new();
    match ps {
        PopoverState::Info => push_info(&mut pcv, assets),
        PopoverState::Help => push_help(&mut pcv, assets),
        PopoverState::Configuration(cw) => push_configuration(&mut pcv, *cw, konfiguration, assets),
        PopoverState::ContextMenu(cm) => push_context_menu(&mut pcv, cm),
    }
    assert(pcv@ =~= popover_pc(*ps, *konfiguration, *assets));
    let pc = string_from_chars(pcv.as_slice());
    let mut v: Vec<char> = Vec::new();
    push_outer(&mut v, color, overflow, pc.as_str());
    assert(v@ =~= popover_outer(color@, overflow@, pc@));
    normalize_for_js(string_from_chars(v.as_slice()))
}

} // verus!
