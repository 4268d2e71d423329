//! Dashboard configuration: Grafana-compatible dashboard definitions for the system's
//! metrics, SLOs and alerts. Panel thresholds are held in thousandths of the displayed unit.
use vstd::prelude::*;

verus! {

/// A dashboard panel type.
#[derive(Debug, Clone)]
pub enum PanelType {
    Graph,
    Gauge,
    Stat,
    Table,
    Heatmap,
    AlertList,
    Text,
}

impl PanelType {
    /// The panel type's name in dashboard exports.
    pub fn as_str(&self) -> (s: &'static str)
        ensures
            s@ == match *self {
                PanelType::Graph => "graph"@,
                PanelType::Gauge => "gauge"@,
                PanelType::Stat => "stat"@,
                PanelType::Table => "table"@,
                PanelType::Heatmap => "heatmap"@,
                PanelType::AlertList => "alertlist"@,
                PanelType::Text => "text"@,
            },
    {
        match self {
            PanelType::Graph => "graph",
            PanelType::Gauge => "gauge",
            PanelType::Stat => "stat",
            PanelType::Table => "table",
            PanelType::Heatmap => "heatmap",
            PanelType::AlertList => "alertlist",
            PanelType::Text => "text",
        }
    }
}

/// A single dashboard panel definition.
#[derive(Debug)]
pub struct PanelDefinition {
    /// Panel title.
    pub title: String,
    /// Panel type.
    pub panel_type: PanelType,
    /// Prometheus query expression.
    pub query: String,
    /// Grid position (x, y, w, h).
    pub grid_pos: (u32, u32, u32, u32),
    /// Optional unit for display.
    pub unit: Option<String>,
    /// Thresholds for color coding, in thousandths of the unit, with their colors.
    pub thresholds: Vec<(i64, String)>,
}

impl Clone for PanelDefinition {
    fn clone(&self) -> (r: Self)
        ensures
            r.title@ == self.title@,
            r.query@ == self.query@,
            r.grid_pos == self.grid_pos,
            r.thresholds@.len() == self.thresholds@.len(),
            forall|i: int|
                0 <= i < r.thresholds@.len() ==> r.thresholds@[i].0 == self.thresholds@[i].0
                    && r.thresholds@[i].1@ == self.thresholds@[i].1@,
    {
        let mut thresholds: Vec<(i64, String)> = Vec::new();
        let mut i: usize = 0;
        while i < self.thresholds.len()
            invariant
                i <= self.thresholds@.len(),
                thresholds@.len() == i,
                forall|k: int|
                    0 <= k < i ==> thresholds@[k].0 == self.thresholds@[k].0
                        && thresholds@[k].1@ == self.thresholds@[k].1@,
            decreases self.thresholds@.len() - i,
        {
            let v = self.thresholds[i].0;
            let c = self.thresholds[i].1.clone();
            thresholds.push((v, c));
            i = i + 1;
        }
        PanelDefinition {
            title: self.title.clone(),
            panel_type: self.panel_type.clone(),
            query: self.query.clone(),
            grid_pos: self.grid_pos,
            unit: match &self.unit {
                Some(u) => Some(u.clone()),
                None => None,
            },
            thresholds,
        }
    }
}

/// A dashboard row (group of panels).
#[derive(Debug, Clone)]
pub struct DashboardRow {
    /// Row title.
    pub title: String,
    /// Panels in this row.
    pub panels: Vec<PanelDefinition>,
}

/// A complete dashboard definition.
#[derive(Debug, Clone)]
pub struct DashboardDefinition {
    /// Dashboard title.
    pub title: String,
    /// Dashboard description.
    pub description: String,
    /// Dashboard UID (unique identifier).
    pub uid: String,
    /// Rows of panels.
    pub rows: Vec<DashboardRow>,
    /// Auto-refresh interval.
    pub refresh_interval: String,
    /// Time range.
    pub time_range: String,
    /// Dashboard tags.
    pub tags: Vec<String>,
}

/// The dashboard grid is 24 columns wide.
pub const GRID_COLUMNS: u32 = 24;

/// The panel lies within the grid's columns.
pub open spec fn panel_fits(p: PanelDefinition) -> bool {
    p.grid_pos.0 + p.grid_pos.2 <= GRID_COLUMNS
}

/// Threshold values strictly increase.
pub open spec fn thresholds_ascending(t: Seq<(i64, String)>) -> bool {
    forall|a: int, b: int| 0 <= a < b < t.len() ==> t[a].0 < t[b].0
}

/// Every panel of the dashboard fits the grid and has ascending thresholds.
pub open spec fn layout_ok(d: DashboardDefinition) -> bool {
    forall|i: int, j: int|
        #![trigger d.rows@[i].panels@[j]]
        0 <= i < d.rows@.len() && 0 <= j < d.rows@[i].panels@.len() ==> panel_fits(
            d.rows@[i].panels@[j],
        ) && thresholds_ascending(d.rows@[i].panels@[j].thresholds@)
}

/// The views of a sequence of strings.
pub open spec fn string_views(s: Seq<String>) -> Seq<Seq<char>> {
    s.map_values(|t: String| t@)
}

/// Builder for constructing dashboard definitions.
pub struct DashboardBuilder {
    title: String,
    description: String,
    uid: String,
    rows: Vec<DashboardRow>,
    refresh: String,
    time_range: String,
    tags: Vec<String>,
}

impl DashboardBuilder {
    /// The dashboard that `build` would return now.
    pub closed spec fn view(&self) -> DashboardDefinition {
        DashboardDefinition {
            title: self.title,
            description: self.description,
            uid: self.uid,
            rows: self.rows,
            refresh_interval: self.refresh,
            time_range: self.time_range,
            tags: self.tags,
        }
    }

    /// A builder with a title and uid, no description, rows or tags, a 30-second refresh
    /// and a one-hour time range.
    pub fn new(title: &str, uid: &str) -> (b: Self)
        ensures
            b@.title@ == title@,
            b@.uid@ == uid@,
            b@.description@ == Seq::<char>::empty(),
            b@.rows@.len() == 0,
            b@.refresh_interval@ == "30s"@,
            b@.time_range@ == "1h"@,
            b@.tags@.len() == 0,
    {
        DashboardBuilder {
            title: title.to_owned(),
            description: String::new(),
            uid: uid.to_owned(),
            rows: Vec::new(),
            refresh: "30s".to_owned(),
            time_range: "1h".to_owned(),
            tags: Vec::new(),
        }
    }

    /// Set the description.
    pub fn description(self, desc: &str) -> (b: Self)
        ensures
            b@ == (DashboardDefinition { description: b@.description, ..self@ }),
            b@.description@ == desc@,
    {
        let mut b = self;
        b.description = desc.to_owned();
        b
    }

    /// Set the auto-refresh interval.
    pub fn refresh_interval(self, interval: &str) -> (b: Self)
        ensures
            b@ == (DashboardDefinition { refresh_interval: b@.refresh_interval, ..self@ }),
            b@.refresh_interval@ == interval@,
    {
        let mut b = self;
        b.refresh = interval.to_owned();
        b
    }

    /// Set the time range.
    pub fn time_range(self, range: &str) -> (b: Self)
        ensures
            b@ == (DashboardDefinition { time_range: b@.time_range, ..self@ }),
            b@.time_range@ == range@,
    {
        let mut b = self;
        b.time_range = range.to_owned();
        b
    }

    /// Append a tag.
    pub fn tag(self, tag: &str) -> (b: Self)
        ensures
            b@ == (DashboardDefinition { tags: b@.tags, ..self@ }),
            b@.tags@.len() == self@.tags@.len() + 1,
            b@.tags@.take(self@.tags@.len() as int) == self@.tags@,
            b@.tags@.last()@ == tag@,
    {
        let mut b = self;
        b.tags.push(tag.to_owned());
        b
    }

    /// Append a row.
    pub fn add_row(self, row: DashboardRow) -> (b: Self)
        ensures
            b@ == (DashboardDefinition { rows: b@.rows, ..self@ }),
            b@.rows@ == self@.rows@.push(row),
    {
        let mut b = self;
        b.rows.push(row);
        b
    }

    /// The dashboard built so far.
    pub fn build(self) -> (d: DashboardDefinition)
        ensures
            d == self@,
    {
        DashboardDefinition {
            title: self.title,
            description: self.description,
            uid: self.uid,
            rows: self.rows,
            refresh_interval: self.refresh,
            time_range: self.time_range,
            tags: self.tags,
        }
    }
}

/// A panel as plain values: title, type, query, grid position, unit and thresholds.
pub type PanelView = (
    Seq<char>,
    PanelType,
    Seq<char>,
    (u32, u32, u32, u32),
    Option<Seq<char>>,
    Seq<(i64, Seq<char>)>,
);

/// Thresholds as plain values.
pub open spec fn threshold_views(t: Seq<(i64, String)>) -> Seq<(i64, Seq<char>)> {
    t.map_values(|e: (i64, String)| (e.0, e.1@))
}

/// An optional string as characters.
pub open spec fn opt_chars(o: Option<String>) -> Option<Seq<char>> {
    match o {
        Some(t) => Some(t@),
        None => None,
    }
}

/// A panel as plain values.
pub open spec fn panel_view(p: PanelDefinition) -> PanelView {
    (p.title@, p.panel_type, p.query@, p.grid_pos, opt_chars(p.unit), threshold_views(p.thresholds@))
}

/// The panels of each row of a dashboard, as plain values.
pub open spec fn dashboard_panels(d: DashboardDefinition) -> Seq<Seq<PanelView>> {
    d.rows@.map_values(|r: DashboardRow| r.panels@.map_values(|p: PanelDefinition| panel_view(p)))
}

/// The panels of the overview dashboard, row by row.
pub open spec fn overview_panels() -> Seq<Seq<PanelView>> {
    seq![
        seq![
            ("API Request Rate"@, PanelType::Graph, "rate(gane_http_requests_total[5m])"@, (0, 0, 12, 8), Some("reqps"@), seq![]),
            ("Error Rate"@, PanelType::Gauge, "rate(gane_http_errors_total[5m]) / rate(gane_http_requests_total[5m])"@, (12, 0, 6, 8), Some("percentunit"@), seq![(10i64, "green"@), (50i64, "yellow"@), (100i64, "red"@)]),
            ("Active Sessions"@, PanelType::Stat, "gane_active_sessions"@, (18, 0, 6, 8), None, seq![]),
        ],
        seq![
            ("GNSS Tracked Satellites"@, PanelType::Graph, "gane_gnss_tracked_satellites"@, (0, 8, 12, 8), None, seq![(4000i64, "red"@), (8000i64, "yellow"@), (12000i64, "green"@)]),
            ("Position Accuracy (m)"@, PanelType::Graph, "gane_position_accuracy_meters"@, (12, 8, 12, 8), Some("m"@), seq![(1000i64, "green"@), (5000i64, "yellow"@), (10000i64, "red"@)]),
        ],
        seq![
            ("API Availability SLO"@, PanelType::Gauge, "gane_slo_api_availability_ratio"@, (0, 16, 8, 8), Some("percentunit"@), seq![(990i64, "red"@), (995i64, "yellow"@), (999i64, "green"@)]),
            ("Error Budget Remaining"@, PanelType::Gauge, "gane_slo_error_budget_remaining"@, (8, 16, 8, 8), Some("percentunit"@), seq![(0i64, "red"@), (250i64, "yellow"@), (500i64, "green"@)]),
            ("Burn Rate"@, PanelType::Stat, "gane_slo_burn_rate"@, (16, 16, 8, 8), Some("x"@), seq![(1000i64, "green"@), (2000i64, "yellow"@), (5000i64, "red"@)]),
        ],
    ]
}

/// The panels of the navigation dashboard, row by row.
pub open spec fn navigation_panels() -> Seq<Seq<PanelView>> {
    seq![
        seq![
            ("Constellation Health"@, PanelType::Table, "gane_gnss_constellation_status"@, (0, 0, 24, 8), None, seq![]),
            ("Fusion Measurement Rate"@, PanelType::Graph, "rate(gane_fusion_measurements_total[1m])"@, (0, 8, 12, 8), Some("ops"@), seq![]),
            ("Integrity Score"@, PanelType::Graph, "gane_integrity_score"@, (12, 8, 12, 8), None, seq![(800i64, "red"@), (900i64, "yellow"@), (950i64, "green"@)]),
        ],
    ]
}

/// A panel with the given fields.
fn panel(
    title: &str,
    panel_type: PanelType,
    query: &str,
    grid_pos: (u32, u32, u32, u32),
    unit: Option<&str>,
    thresholds: Vec<(i64, String)>,
) -> (p: PanelDefinition)
    ensures
        p.title@ == title@,
        p.panel_type == panel_type,
        p.query@ == query@,
        p.grid_pos == grid_pos,
        p.unit is Some <==> unit is Some,
        unit is Some ==> p.unit->0@ == unit->0@,
        p.thresholds == thresholds,
        panel_view(p) == (
            title@,
            panel_type,
            query@,
            grid_pos,
            match unit {
                Some(u) => Some(u@),
                None => None::<Seq<char>>,
            },
            threshold_views(thresholds@),
        ),
{
    PanelDefinition {
        title: title.to_owned(),
        panel_type,
        query: query.to_owned(),
        grid_pos,
        unit: match unit {
            Some(u) => Some(u.to_owned()),
            None => None,
        },
        thresholds,
    }
}

/// Three thresholds, in thousandths, with their colors.
fn thresholds3(a: i64, ca: &str, b: i64, cb: &str, c: i64, cc: &str) -> (t: Vec<(i64, String)>)
    ensures
        t@.len() == 3,
        t@[0].0 == a && t@[1].0 == b && t@[2].0 == c,
        t@[0].1@ == ca@ && t@[1].1@ == cb@ && t@[2].1@ == cc@,
        threshold_views(t@) == seq![(a, ca@), (b, cb@), (c, cc@)],
{
    let t = vec![(a, ca.to_owned()), (b, cb.to_owned()), (c, cc.to_owned())];
    assert(threshold_views(t@) =~= seq![(a, ca@), (b, cb@), (c, cc@)]);
    t
}

/// The default overview dashboard: system health, navigation and SLO compliance rows.
pub fn gane_overview_dashboard() -> (d: DashboardDefinition)
    ensures
        d.title@ == "G.A.N.E NAV Overview"@,
        d.uid@ == "gane-overview"@,
        d.description@ == "System-wide overview of G.A.N.E NAV"@,
        d.refresh_interval@ == "30s"@,
        d.time_range@ == "1h"@,
        string_views(d.tags@) == seq!["gane"@, "overview"@],
        d.rows@.len() == 3,
        d.rows@[0].title@ == "System Health"@,
        d.rows@[1].title@ == "Navigation"@,
        d.rows@[2].title@ == "SLO Compliance"@,
        d.rows@[0].panels@.len() == 3,
        d.rows@[1].panels@.len() == 2,
        d.rows@[2].panels@.len() == 3,
        d.rows@[0].panels@[0].query@ == "rate(gane_http_requests_total[5m])"@,
        d.rows@[0].panels@[1].title@ == "Error Rate"@,
        d.rows@[0].panels@[1].thresholds@.len() == 3,
        d.rows@[0].panels@[1].thresholds@[0].1@ == "green"@,
        dashboard_panels(d) == overview_panels(),
        layout_ok(d),
{
    let r1 = DashboardRow {
        title: "System Health".to_owned(),
        panels: vec![
            panel(
                "API Request Rate",
                PanelType::Graph,
                "rate(gane_http_requests_total[5m])",
                (0, 0, 12, 8),
                Some("reqps"),
                Vec::new(),
            ),
            panel(
                "Error Rate",
                PanelType::Gauge,
                "rate(gane_http_errors_total[5m]) / rate(gane_http_requests_total[5m])",
                (12, 0, 6, 8),
                Some("percentunit"),
                thresholds3(10, "green", 50, "yellow", 100, "red"),
            ),
            panel(
                "Active Sessions",
                PanelType::Stat,
                "gane_active_sessions",
                (18, 0, 6, 8),
                None,
                Vec::new(),
            ),
        ],
    };
    let r2 = DashboardRow {
        title: "Navigation".to_owned(),
        panels: vec![
            panel(
                "GNSS Tracked Satellites",
                PanelType::Graph,
                "gane_gnss_tracked_satellites",
                (0, 8, 12, 8),
                None,
                thresholds3(4000, "red", 8000, "yellow", 12000, "green"),
            ),
            panel(
                "Position Accuracy (m)",
                PanelType::Graph,
                "gane_position_accuracy_meters",
                (12, 8, 12, 8),
                Some("m"),
                thresholds3(1000, "green", 5000, "yellow", 10000, "red"),
            ),
        ],
    };
    let r3 = DashboardRow {
        title: "SLO Compliance".to_owned(),
        panels: vec![
            panel(
                "API Availability SLO",
                PanelType::Gauge,
                "gane_slo_api_availability_ratio",
                (0, 16, 8, 8),
                Some("percentunit"),
                thresholds3(990, "red", 995, "yellow", 999, "green"),
            ),
            panel(
                "Error Budget Remaining",
                PanelType::Gauge,
                "gane_slo_error_budget_remaining",
                (8, 16, 8, 8),
                Some("percentunit"),
                thresholds3(0, "red", 250, "yellow", 500, "green"),
            ),
            panel(
                "Burn Rate",
                PanelType::Stat,
                "gane_slo_burn_rate",
                (16, 16, 8, 8),
                Some("x"),
                thresholds3(1000, "green", 2000, "yellow", 5000, "red"),
            ),
        ],
    };
    let d = DashboardBuilder::new("G.A.N.E NAV Overview", "gane-overview")
        .description("System-wide overview of G.A.N.E NAV")
        .refresh_interval("30s")
        .time_range("1h")
        .tag("gane")
        .tag("overview")
        .add_row(r1)
        .add_row(r2)
        .add_row(r3)
        .build();
    proof {
        assert(string_views(d.tags@) =~= seq!["gane"@, "overview"@]);
        assert(layout_ok(d));
        assert(threshold_views(Seq::<(i64, String)>::empty()) =~= Seq::empty());
        let dp = dashboard_panels(d);
        let op = overview_panels();
        assert(dp[0] =~= op[0]);
        assert(dp[1] =~= op[1]);
        assert(dp[2] =~= op[2]);
        assert(dp =~= op);
    }
    d
}

/// The navigation detail dashboard: GNSS and sensor-fusion panels.
pub fn gane_navigation_dashboard() -> (d: DashboardDefinition)
    ensures
        d.title@ == "G.A.N.E NAV Navigation"@,
        d.uid@ == "gane-navigation"@,
        d.description@ == "Detailed navigation metrics for G.A.N.E NAV"@,
        d.refresh_interval@ == "10s"@,
        d.time_range@ == "30m"@,
        string_views(d.tags@) == seq!["gane"@, "navigation"@],
        d.rows@.len() == 1,
        d.rows@[0].title@ == "GNSS & Fusion"@,
        d.rows@[0].panels@.len() == 3,
        dashboard_panels(d) == navigation_panels(),
        layout_ok(d),
{
    let r1 = DashboardRow {
        title: "GNSS & Fusion".to_owned(),
        panels: vec![
            panel(
                "Constellation Health",
                PanelType::Table,
                "gane_gnss_constellation_status",
                (0, 0, 24, 8),
                None,
                Vec::new(),
            ),
            panel(
                "Fusion Measurement Rate",
                PanelType::Graph,
                "rate(gane_fusion_measurements_total[1m])",
                (0, 8, 12, 8),
                Some("ops"),
                Vec::new(),
            ),
            panel(
                "Integrity Score",
                PanelType::Graph,
                "gane_integrity_score",
                (12, 8, 12, 8),
                None,
                thresholds3(800, "red", 900, "yellow", 950, "green"),
            ),
        ],
    };
    let d = DashboardBuilder::new("G.A.N.E NAV Navigation", "gane-navigation")
        .description("Detailed navigation metrics for G.A.N.E NAV")
        .refresh_interval("10s")
        .time_range("30m")
        .tag("gane")
        .tag("navigation")
        .add_row(r1)
        .build();
    proof {
        assert(string_views(d.tags@) =~= seq!["gane"@, "navigation"@]);
        assert(layout_ok(d));
        assert(threshold_views(Seq::<(i64, String)>::empty()) =~= Seq::empty());
        let dp = dashboard_panels(d);
        let np = navigation_panels();
        assert(dp[0] =~= np[0]);
        assert(dp =~= np);
    }
    d
}

/// An SLO observation: when it was recorded (milliseconds since the Unix epoch) and
/// whether it was good.
#[derive(Debug, Clone, Copy, PartialEq, Eq, Structural)]
pub struct SloObservation {
    /// Recording time in milliseconds since the Unix epoch.
    pub at_ms: i64,
    /// Whether the observation met the objective.
    pub good: bool,
}

/// The observation lies in a window that starts at `cutoff_ms`.
pub open spec fn in_window(cutoff_ms: i64) -> spec_fn(SloObservation) -> bool {
    |o: SloObservation| o.at_ms >= cutoff_ms
}

/// The observation lies in the window and was good.
pub open spec fn good_in_window(cutoff_ms: i64) -> spec_fn(SloObservation) -> bool {
    |o: SloObservation| o.at_ms >= cutoff_ms && o.good
}

/// Counts of the observations in an SLO window.
#[derive(Debug, Clone, Copy, PartialEq, Eq, Structural)]
pub struct WindowCounts {
    /// Observations in the window.
    pub total: usize,
    /// Good observations in the window.
    pub good: usize,
    /// Bad observations in the window.
    pub bad: usize,
}

/// Count the observations recorded at or after `cutoff_ms`, and how many of them were
/// good and bad.
pub fn window_counts(obs: &Vec<SloObservation>, cutoff_ms: i64) -> (c: WindowCounts)
    ensures
        c.total == obs@.filter(in_window(cutoff_ms)).len(),
        c.good == obs@.filter(good_in_window(cutoff_ms)).len(),
        c.bad == c.total - c.good,
{
    let ghost s = obs@;
    let ghost fw = in_window(cutoff_ms);
    let ghost fg = good_in_window(cutoff_ms);
    let mut total: usize = 0;
    let mut good: usize = 0;
    let mut i: usize = 0;
    proof {
        reveal(Seq::filter);
        assert(s.take(0) =~= Seq::<SloObservation>::empty());
    }
    while i < obs.len()
        invariant
            s == obs@,
            fw == in_window(cutoff_ms),
            fg == good_in_window(cutoff_ms),
            i <= s.len(),
            total == s.take(i as int).filter(fw).len(),
            good == s.take(i as int).filter(fg).len(),
            good <= total <= i,
        decreases s.len() - i,
    {
        proof {
            assert(s.take(i + 1) =~= s.take(i as int).push(s[i as int]));
            s.take(i as int).lemma_filter_push(s[i as int], fw);
            s.take(i as int).lemma_filter_push(s[i as int], fg);
        }
        let o = obs[i];
        if o.at_ms >= cutoff_ms {
            total = total + 1;
            if o.good {
                good = good + 1;
            }
        }
        i = i + 1;
    }
    proof {
        assert(s.take(i as int) =~= s);
    }
    WindowCounts { total, good, bad: total - good }
}

} // verus!
