use gane::monitoring::{
    gane_navigation_dashboard, gane_overview_dashboard, window_counts, DashboardBuilder,
    DashboardRow, PanelDefinition, PanelType, SloObservation, GRID_COLUMNS,
};

#[test]
fn builder_produces_valid_dashboard() {
    let dash = DashboardBuilder::new("Test", "test-uid")
        .description("Test dashboard")
        .refresh_interval("10s")
        .time_range("6h")
        .tag("test")
        .build();

    assert_eq!(dash.title, "Test");
    assert_eq!(dash.uid, "test-uid");
    assert_eq!(dash.refresh_interval, "10s");
    assert_eq!(dash.time_range, "6h");
    assert_eq!(dash.tags, vec!["test"]);
}

#[test]
fn builder_with_rows() {
    let dash = DashboardBuilder::new("Test", "uid")
        .add_row(DashboardRow {
            title: "Row 1".to_string(),
            panels: vec![PanelDefinition {
                title: "Panel 1".to_string(),
                panel_type: PanelType::Graph,
                query: "up".to_string(),
                grid_pos: (0, 0, 24, 8),
                unit: None,
                thresholds: vec![],
            }],
        })
        .build();

    assert_eq!(dash.rows.len(), 1);
    assert_eq!(dash.rows[0].panels.len(), 1);
    assert_eq!(dash.rows[0].panels[0].title, "Panel 1");
}

#[test]
fn overview_dashboard_structure() {
    let dash = gane_overview_dashboard();
    assert_eq!(dash.uid, "gane-overview");
    assert_eq!(dash.rows.len(), 3);
    assert!(dash.tags.contains(&"gane".to_string()));
}

#[test]
fn navigation_dashboard_structure() {
    let dash = gane_navigation_dashboard();
    assert_eq!(dash.uid, "gane-navigation");
    assert!(!dash.rows.is_empty());
    assert!(dash.tags.contains(&"navigation".to_string()));
}

#[test]
fn panel_thresholds() {
    let dash = gane_overview_dashboard();
    let error_panel = &dash.rows[0].panels[1];
    assert!(!error_panel.thresholds.is_empty());
    assert_eq!(error_panel.thresholds[0].1, "green");
}

#[test]
fn multiple_tags() {
    let dash = DashboardBuilder::new("T", "u").tag("a").tag("b").tag("c").build();
    assert_eq!(dash.tags.len(), 3);
}

#[test]
fn default_refresh_interval() {
    let dash = DashboardBuilder::new("T", "u").build();
    assert_eq!(dash.refresh_interval, "30s");
}

#[test]
fn default_dashboards_fit_the_grid_with_ascending_thresholds() {
    for dash in [gane_overview_dashboard(), gane_navigation_dashboard()] {
        for row in &dash.rows {
            for p in &row.panels {
                assert!(p.grid_pos.0 + p.grid_pos.2 <= GRID_COLUMNS);
                for w in p.thresholds.windows(2) {
                    assert!(w[0].0 < w[1].0);
                }
            }
        }
    }
}

#[test]
fn thresholds_are_thousandths_of_the_unit() {
    let dash = gane_overview_dashboard();
    let t = &dash.rows[0].panels[1].thresholds;
    assert_eq!(t[0], (10, "green".to_string()));
    assert_eq!(t[1], (50, "yellow".to_string()));
    assert_eq!(t[2], (100, "red".to_string()));
    let sats = &dash.rows[1].panels[0].thresholds;
    assert_eq!(sats[0].0, 4000);
}

#[test]
fn cloned_panel_keeps_its_fields() {
    let dash = gane_overview_dashboard();
    let p = dash.rows[2].panels[1].clone();
    assert_eq!(p.title, "Error Budget Remaining");
    assert_eq!(p.grid_pos, (8, 16, 8, 8));
    assert_eq!(p.thresholds[1], (250, "yellow".to_string()));
    assert_eq!(p.unit.as_deref(), Some("percentunit"));
}

#[test]
fn window_counts_only_observations_at_or_after_the_cutoff() {
    let obs = vec![
        SloObservation { at_ms: 100, good: true },
        SloObservation { at_ms: 200, good: false },
        SloObservation { at_ms: 300, good: true },
        SloObservation { at_ms: 400, good: false },
        SloObservation { at_ms: 500, good: true },
    ];
    let c = window_counts(&obs, 300);
    assert_eq!((c.total, c.good, c.bad), (3, 2, 1));
    let c = window_counts(&obs, 0);
    assert_eq!((c.total, c.good, c.bad), (5, 3, 2));
    let c = window_counts(&obs, 501);
    assert_eq!((c.total, c.good, c.bad), (0, 0, 0));
}
