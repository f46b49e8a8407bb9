use mew_desktop::icons::{IconAssets, TablerIcon};

#[test]
fn every_icon_has_a_loadable_tabler_document() {
    let assets = IconAssets;
    for icon in TablerIcon::all() {
        let path = icon.asset_path();
        let document = assets
            .load(path)
            .expect("registered icon should have an asset");
        assert!(document.starts_with("<svg "));
        assert!(document.contains("currentColor"));
    }
}
