//! The HTML page of a dashboard: fixed markup around the dashboard's title,
//! refresh interval and panels, and the snapshot's JSON text.

use vstd::prelude::*;
use crate::base::text::{chars_of, decimal, push_char, push_decimal, push_str};
use crate::exporters::dashboard::{Dashboard, Panel, PanelType, PanelView, DashboardView};

verus! {

/// The page up to the title.
pub const PAGE_OPEN: &'static str = r##"<!DOCTYPE html>
<html>
<head>
    <title>"##;

/// From the title to the embedded snapshot.
pub const PAGE_AFTER_TITLE: &'static str = r##"</title>
    <meta charset="utf-8">
    <meta name="viewport" content="width=device-width, initial-scale=1">
    <style>
        body {
            font-family: -apple-system, BlinkMacSystemFont, "Segoe UI", Roboto, sans-serif;
            margin: 0;
            padding: 20px;
            background-color: #1a1a1a;
            color: #ffffff;
        }
        .dashboard {
            max-width: 1200px;
            margin: 0 auto;
        }
        h1 {
            margin-bottom: 30px;
            color: #4fc3f7;
        }
        .panels {
            display: grid;
            grid-template-columns: repeat(auto-fit, minmax(300px, 1fr));
            gap: 20px;
        }
        .panel {
            background-color: #2d2d2d;
            border-radius: 8px;
            padding: 20px;
            box-shadow: 0 2px 8px rgba(0,0,0,0.3);
        }
        .panel h2 {
            margin-top: 0;
            color: #81c784;
            font-size: 16px;
            font-weight: 500;
        }
        .metric-value {
            font-size: 36px;
            font-weight: bold;
            color: #4fc3f7;
            margin: 20px 0;
        }
        .metric-label {
            font-size: 12px;
            color: #9e9e9e;
            margin-top: 10px;
        }
        .gauge {
            width: 100%;
            height: 10px;
            background-color: #424242;
            border-radius: 5px;
            overflow: hidden;
            margin-top: 10px;
        }
        .gauge-fill {
            height: 100%;
            background: linear-gradient(90deg, #4fc3f7, #81c784);
            transition: width 0.3s ease;
        }
        .timestamp {
            text-align: center;
            margin-top: 30px;
            color: #9e9e9e;
            font-size: 12px;
        }
    </style>
    <script>
        let dashboardData = "##;

/// From the embedded snapshot to the parsed copy of it.
pub const PAGE_AFTER_DATA: &'static str = r##";

        function updateDashboard() {
            const panels = document.querySelectorAll('.panel');
            panels.forEach(panel => {
                const metricName = panel.dataset.metric;
                const series = dashboardData.time_series?.find(s => s.name === metricName);

                if (series && series.data_points.length > 0) {
                    const value = series.data_points[0].value;
                    const valueEl = panel.querySelector('.metric-value');
                    if (valueEl) {
                        valueEl.textContent = value;
                    }

                    const gaugeFill = panel.querySelector('.gauge-fill');
                    if (gaugeFill) {
                        const percent = Math.min(100, Math.max(0, value));
                        gaugeFill.style.width = percent + '%';
                    }
                }
            });

            const timestampEl = document.querySelector('.timestamp');
            if (timestampEl && dashboardData.timestamp) {
                const date = new Date(dashboardData.timestamp * 1000);
                timestampEl.textContent = 'Last updated: ' + date.toLocaleString();
            }
        }

        function loadData() {
            // In a real implementation, this would fetch from an API endpoint
            dashboardData = JSON.parse('"##;

/// From the parsed snapshot to the refresh interval.
pub const PAGE_AFTER_PARSE: &'static str = r##"');
            updateDashboard();
        }

        window.addEventListener('load', () => {
            loadData();
            setInterval(loadData, "##;

/// From the refresh interval to the heading.
pub const PAGE_AFTER_REFRESH: &'static str = r##" * 1000);
        });
    </script>
</head>
<body>
    <div class="dashboard">
        <h1>"##;

/// From the heading to the panels.
pub const PAGE_AFTER_HEADING: &'static str = r##"</h1>
        <div class="panels">
"##;

/// The page after the panels.
pub const PAGE_CLOSE: &'static str = r##"
        </div>
        <div class="timestamp">Loading...</div>
    </div>
</body>
</html>"##;

/// The start of a panel, up to its metric name.
pub const PANEL_OPEN: &'static str = r##"            <div class="panel" data-metric=""##;

/// From the metric name to the title.
pub const PANEL_AFTER_METRIC: &'static str = r##"">
                <h2>"##;

/// From the title to the label, in a gauge panel.
pub const PANEL_GAUGE_BODY: &'static str = r##"</h2>
                <div class="metric-value">--</div>
                <div class="gauge">
                    <div class="gauge-fill" style="width: 0%"></div>
                </div>
                <div class="metric-label">"##;

/// From the title to the label, in any other panel.
pub const PANEL_PLAIN_BODY: &'static str = r##"</h2>
                <div class="metric-value">--</div>
                <div class="metric-label">"##;

/// The end of a panel.
pub const PANEL_CLOSE: &'static str = r##"</div>
            </div>"##;

/// `s` with each single quote preceded by a backslash, so that it can stand
/// inside a single-quoted script string.
pub open spec fn escape_quotes(s: Seq<char>) -> Seq<char>
    decreases s.len(),
{
    if s.len() == 0 {
        seq![]
    } else if s.last() == '\'' {
        escape_quotes(s.drop_last()) + seq!['\\', '\'']
    } else {
        escape_quotes(s.drop_last()).push(s.last())
    }
}

/// The markup of one panel.
pub open spec fn panel_html(p: PanelView) -> Seq<char> {
    PANEL_OPEN@ + p.metric_name + PANEL_AFTER_METRIC@ + p.title + (if p.panel_type
        == PanelType::Gauge {
        PANEL_GAUGE_BODY@
    } else {
        PANEL_PLAIN_BODY@
    }) + p.metric_name + PANEL_CLOSE@
}

/// The markup of the panels, one after another, separated by line breaks.
pub open spec fn panels_html(ps: Seq<PanelView>) -> Seq<char>
    decreases ps.len(),
{
    if ps.len() == 0 {
        seq![]
    } else if ps.len() == 1 {
        panel_html(ps[0])
    } else {
        panels_html(ps.drop_last()).push('\n') + panel_html(ps.last())
    }
}

/// The page of the dashboard `d` carrying the snapshot `json`.
pub open spec fn page_html(d: DashboardView, json: Seq<char>) -> Seq<char> {
    PAGE_OPEN@ + d.title + PAGE_AFTER_TITLE@ + escape_quotes(json) + PAGE_AFTER_DATA@
        + escape_quotes(json) + PAGE_AFTER_PARSE@ + decimal(d.refresh_interval_seconds as nat)
        + PAGE_AFTER_REFRESH@ + d.title + PAGE_AFTER_HEADING@ + panels_html(d.panels) + PAGE_CLOSE@
}

fn push_escaped_quotes(out: &mut String, s: &str)
    ensures
        final(out)@ == old(out)@ + escape_quotes(s@),
{
    let cs = chars_of(s);
    let n = cs.len();
    for i in 0..n
        invariant
            n == cs@.len(),
            cs@ == s@,
            out@ == old(out)@ + escape_quotes(s@.take(i as int)),
    {
        let c = cs[i];
        assert(s@.take(i + 1).drop_last() =~= s@.take(i as int));
        assert(s@.take(i + 1).last() == c);
        if c == '\'' {
            push_char(out, '\\');
            push_char(out, '\'');
        } else {
            push_char(out, c);
        }
        assert(out@ =~= old(out)@ + escape_quotes(s@.take(i + 1)));
    }
    assert(s@.take(n as int) =~= s@);
}

/// The markup of one panel: its metric name, title and, for a gauge, a
/// gauge bar.
pub fn render_panel(panel: &Panel) -> (r: String)
    ensures
        r@ == panel_html(panel@),
{
    let mut out = String::new();
    push_str(&mut out, PANEL_OPEN);
    push_str(&mut out, panel.metric_name.as_str());
    push_str(&mut out, PANEL_AFTER_METRIC);
    push_str(&mut out, panel.title.as_str());
    match panel.panel_type {
        PanelType::Gauge => push_str(&mut out, PANEL_GAUGE_BODY),
        _ => push_str(&mut out, PANEL_PLAIN_BODY),
    }
    push_str(&mut out, panel.metric_name.as_str());
    push_str(&mut out, PANEL_CLOSE);
    assert(out@ =~= panel_html(panel@));
    out
}

/// The HTML page of `dashboard`, with `snapshot_json` (the snapshot as JSON
/// text) embedded in its script.
pub fn dashboard_page(dashboard: &Dashboard, snapshot_json: &str) -> (r: String)
    ensures
        r@ == page_html(dashboard@, snapshot_json@),
{
    let mut out = String::new();
    push_str(&mut out, PAGE_OPEN);
    push_str(&mut out, dashboard.title.as_str());
    push_str(&mut out, PAGE_AFTER_TITLE);
    push_escaped_quotes(&mut out, snapshot_json);
    push_str(&mut out, PAGE_AFTER_DATA);
    push_escaped_quotes(&mut out, snapshot_json);
    push_str(&mut out, PAGE_AFTER_PARSE);
    push_decimal(&mut out, dashboard.refresh_interval_seconds as u128);
    push_str(&mut out, PAGE_AFTER_REFRESH);
    push_str(&mut out, dashboard.title.as_str());
    push_str(&mut out, PAGE_AFTER_HEADING);
    let ghost head = out@;
    let ghost ps = dashboard@.panels;
    let n = dashboard.panels.len();
    for i in 0..n
        invariant
            n == dashboard.panels.len(),
            ps == dashboard@.panels,
            out@ == head + panels_html(ps.take(i as int)),
    {
        if i > 0 {
            push_char(&mut out, '\n');
        }
        let p = render_panel(&dashboard.panels[i]);
        push_str(&mut out, p.as_str());
        proof {
            let t = ps.take(i + 1);
            assert(t.drop_last() =~= ps.take(i as int));
            assert(t.last() == dashboard.panels@[i as int]@);
            if i == 0 {
                assert(ps.take(0) =~= Seq::<PanelView>::empty());
                assert(t.len() == 1);
            }
            assert(out@ =~= head + panels_html(t));
        }
    }
    assert(ps.take(n as int) =~= ps);
    push_str(&mut out, PAGE_CLOSE);
    assert(out@ =~= page_html(dashboard@, snapshot_json@));
    out
}

} // verus!
