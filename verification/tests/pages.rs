use octoweb::nav_error_patch::Registry;
use octoweb::{newtab_html, notification_html, overlay_html, progress_bar_html, prompt_history_js, quickslots_html, settings_html, shortcuts_html};

#[test]
fn newtab_escapes_slots_json_and_fills_markers() {
    let page = newtab_html::html(r#"[{"title":"</script><b>&"}]"#, "{}", "/* theme */", "<svg/>");
    assert!(page.contains(r#"[{"title":"\u003c/script\u003e\u003cb\u003e\u0026"}]"#));
    assert!(page.contains("/* theme */"));
    assert!(page.contains("<svg/>"));
    assert!(!page.contains("@@OCTOPUS_BRAND@@"));
    assert!(!page.contains("/*@@THEME@@*/"));
    assert!(page.starts_with("<!DOCTYPE html>"));
}

#[test]
fn pages_fill_their_theme() {
    for page in [
        notification_html::html("/*T*/", "B"),
        progress_bar_html::html("/*T*/"),
        quickslots_html::html("/*T*/", "+"),
        settings_html::html("/*T*/"),
        shortcuts_html::html("/*T*/"),
    ] {
        assert!(page.contains("/*T*/"));
        assert!(!page.contains("@@THEME@@"));
    }
    assert!(overlay_html::html().contains("</html>"));
    assert!(prompt_history_js::prompt_history_js().contains("function createPromptHistory("));
}

#[test]
fn registry_keeps_the_last_callback_per_webview() {
    let mut r: Registry<u32> = Registry::new();
    r.register(10, 1);
    r.register(20, 2);
    r.register(10, 3);
    assert_eq!(r.get(10), Some(&3));
    r.unregister(10);
    assert_eq!(r.get(10), None);
    assert_eq!(r.get(20), Some(&2));
}
