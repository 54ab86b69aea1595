use forge::listing::{plugin_row, plugin_table, row, ListedPlugin};
use forge::plugin::{check_descriptor, PluginMetadata};

fn s(x: &str) -> String {
    x.to_string()
}

#[test]
fn row_pads_columns() {
    let r = row("rails", "1.2", "✅", "https://x");
    assert_eq!(r, format!("{:<20} {:<10} {:<10} {}", "rails", "1.2", "✅", "https://x"));
    assert_eq!(r, "rails                1.2        ✅          https://x");
}

#[test]
fn row_keeps_long_fields() {
    let long = "a-very-long-plugin-name-indeed";
    assert_eq!(row(long, "v", "m", ""), format!("{} {:<10} {:<10} ", long, "v", "m"));
}

#[test]
fn plugin_row_defaults() {
    let p = ListedPlugin { name: s("node"), version: None, repo: None };
    assert_eq!(plugin_row(&p, &vec![]), format!("{:<20} {:<10} {:<10} {}", "node", "unknown", "❌", "N/A"));
}

#[test]
fn plugin_table_marks_installed() {
    let plugins = vec![
        ListedPlugin { name: s("rails"), version: Some(s("7.1")), repo: Some(s("https://r")) },
        ListedPlugin { name: s("django"), version: Some(s("5.0")), repo: None },
    ];
    let t = plugin_table(&plugins, &vec![s("rails")]);
    assert_eq!(t.len(), 4);
    assert_eq!(t[0], format!("{:<20} {:<10} {:<10} {}", "Name", "Version", "Installed", "URL"));
    assert_eq!(
        t[1],
        format!("{:<20} {:<10} {:<10} {}", "--------------------", "----------", "----------", "--------------------")
    );
    assert_eq!(t[2], format!("{:<20} {:<10} {:<10} {}", "rails", "7.1", "✅", "https://r"));
    assert_eq!(t[3], format!("{:<20} {:<10} {:<10} {}", "django", "5.0", "❌", "N/A"));
}

#[test]
fn plugin_table_empty_index() {
    assert_eq!(plugin_table(&vec![], &vec![s("x")]).len(), 2);
}

#[test]
fn installed_stub_descriptor() {
    let p = PluginMetadata::installed_stub("vue");
    assert_eq!(p.name, "vue");
    assert_eq!(p.version, "0.1.0");
    assert_eq!(p.description, Some(s("Sample installed plugin")));
    assert!(p.templates.is_empty());
    assert!(p.detect.is_none() && p.actions.is_none() && p.custom_renderer_command.is_none());
    assert_eq!(check_descriptor(&p), Ok(()));
}
