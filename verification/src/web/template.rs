//! The template of the settings page.

use vstd::prelude::*;

verus! {

/// The settings page, with placeholders for what it says.
pub const INDEX_HTML: &'static str = "<!DOCTYPE html>
<html lang=\"{{HTML_LANG}}\">
<head>
<meta charset=\"utf-8\">
<meta name=\"viewport\" content=\"width=device-width, initial-scale=1\">
<title>{{TITLE}}</title>
<link rel=\"icon\" href=\"/favicon.ico\">
<style>
body { font-family: sans-serif; margin: 2rem auto; max-width: 48rem; padding: 0 1rem; }
label { display: block; margin: 0.75rem 0 0.25rem; }
input, select { box-sizing: border-box; padding: 0.4rem; width: 100%; }
table { border-collapse: collapse; width: 100%; }
td, th { border-bottom: 1px solid #ddd; padding: 0.4rem; text-align: left; }
.dot { border-radius: 50%; display: inline-block; height: 0.7rem; width: 0.7rem; }
</style>
</head>
<body>
<h1>{{TITLE}}</h1>
<p>{{SUBTITLE}}</p>
<nav>
<a href=\"#settings\">{{TAB_SETTINGS}}</a>
<a href=\"#history\">{{TAB_HISTORY}}</a>
<a href=\"#guide\">{{TAB_GUIDE}}</a>
<a href=\"#about\">{{TAB_ABOUT}}</a>
</nav>
<p>{{STATUS_LABEL}}:
<span id=\"dot\" class=\"dot\" style=\"background: {{INDICATOR_COLOR}}\"></span>
<span id=\"status\" data-running=\"{{STATUS_RUNNING}}\" data-stopped=\"{{STATUS_STOPPED}}\">{{INDICATOR_TEXT}}</span></p>
<p>{{STATUS_UPNP}}: <span id=\"address\"></span></p>
<section id=\"settings\">
<h2>{{SETTINGS_HEADING}}</h2>
<p>{{SETTINGS_HINT}}</p>
<form id=\"form\" method=\"post\" action=\"/settings\">
<label>{{LABEL_NAME}}<input name=\"device_name\" value=\"{{DEVICE_NAME}}\"></label>
<label>{{LABEL_BACKEND}}<select name=\"backend\" data-value=\"{{BACKEND_VALUE}}\">
<option value=\"mpv\" {{MPV_SELECTED}}>mpv</option>
<option value=\"vlc\" {{VLC_SELECTED}}>VLC</option>
</select></label>
<label>{{LABEL_MPV_PATH}}<input name=\"mpv_path\" value=\"{{MPV_PATH}}\"></label>
<label>{{LABEL_VLC_PATH}}<input name=\"vlc_path\" value=\"{{VLC_PATH}}\"></label>
<label>{{LABEL_MAX_HISTORY}}<input name=\"max_history\" type=\"number\" min=\"1\" max=\"10000\" value=\"{{MAX_HISTORY}}\"></label>
<label>{{LABEL_LANGUAGE}}<select name=\"language\">{{LANGUAGE_OPTIONS}}</select></label>
<p><button>{{SAVE_BTN}}</button> <span id=\"saved\" data-saved=\"{{SAVED_MSG}}\" data-failed=\"{{SAVE_ERR_MSG}}\"></span></p>
</form>
</section>
<section id=\"history\">
<h2>{{HISTORY_HEADING}}</h2>
<p>{{HISTORY_SUBTITLE}}</p>
<table><thead><tr><th>{{INDEX_COL}}</th><th>{{TIME_COL}}</th><th>{{TITLE_COL}}</th><th></th></tr></thead>
<tbody id=\"entries\" data-copy=\"{{COPY_LINK}}\" data-open=\"{{OPEN_IN_BROWSER}}\" data-copied=\"{{COPIED_MSG}}\"></tbody></table>
<p id=\"empty\">{{HISTORY_EMPTY}} {{HISTORY_EMPTY_SUB}}</p>
</section>
<section id=\"guide\">
<h2>{{GUIDE_TITLE}}</h2>
<p>{{GUIDE_INTRO}}</p>
<h3>{{GUIDE_PLAYER_HEADING}}</h3><p>{{GUIDE_PLAYER_TEXT}}</p>
<h3>{{GUIDE_CONFIG_HEADING}}</h3><p>{{GUIDE_CONFIG_TEXT}} {{CONFIG_DIR}}</p>
<h3>{{GUIDE_USAGE_HEADING}}</h3><p>{{GUIDE_USAGE_TEXT}}</p>
</section>
<section id=\"about\">
<h2>{{ABOUT_TITLE}}</h2>
<p>{{ABOUT_SUBTITLE}}</p>
<p>{{ABOUT_DESC}}</p>
<dl>
<dt>{{ABOUT_VERSION}}</dt><dd>{{VERSION}}</dd>
<dt>{{ABOUT_REPOSITORY}}</dt><dd>mini-mdr</dd>
<dt>{{ABOUT_LICENSE}}</dt><dd>MIT</dd>
</dl>
</section>
<script>
const byId = (id) => document.getElementById(id);
const link = (text, act) => { const a = document.createElement('button'); a.textContent = text; a.onclick = act; return a; };
const showStatus = (s) => {
  const label = byId('status');
  label.textContent = s.running ? label.dataset.running : label.dataset.stopped;
  byId('dot').style.background = s.running ? '#22c55e' : '#ef4444';
  byId('address').textContent = s.address || '';
};
const showHistory = (h) => {
  const body = byId('entries');
  body.replaceChildren(...h.entries.map((e, i) => {
    const row = document.createElement('tr');
    for (const text of [i + 1, e.time, e.title]) { const cell = document.createElement('td'); cell.textContent = text; row.append(cell); }
    const cell = document.createElement('td');
    cell.append(link(body.dataset.copy, (c) => { navigator.clipboard.writeText(e.uri); c.target.textContent = body.dataset.copied; }));
    cell.append(link(body.dataset.open, () => window.open(e.uri)));
    row.append(cell);
    return row;
  }));
  byId('empty').hidden = h.entries.length > 0;
};
const events = new EventSource('/events');
events.addEventListener('status', (e) => showStatus(JSON.parse(e.data)));
events.addEventListener('history', (e) => showHistory(JSON.parse(e.data)));
byId('form').addEventListener('submit', async (e) => {
  e.preventDefault();
  const label = byId('saved');
  try {
    const reply = await fetch('/settings', { method: 'POST', body: new URLSearchParams(new FormData(e.target)) });
    const result = await reply.json();
    label.textContent = result.message || label.dataset.saved;
  } catch (_) {
    label.textContent = label.dataset.failed;
  }
});
</script>
</body>
</html>
";

} // verus!
