//! The page of the tabbed preview application, with its placeholders.

use vstd::prelude::*;

verus! {

/// The single-page application. Each `__NAME__` is a placeholder that
/// `render_app_page` fills in.
pub const APP_TEMPLATE: &'static str = r##"<!DOCTYPE html>
<html lang="zh" data-theme="__THEME__">
<head>
<meta charset="utf-8">
<meta name="viewport" content="width=device-width, initial-scale=1">
<title>Markdown Preview</title>
<style>
:root {
  --bg: __BG__; --fg: __FG__; --muted: __MUTED__; --border: __BORDER__;
  --accent: __ACCENT__; --code-bg: __CODE_BG__; --pre-bg: __PRE_BG__;
  --table-hdr: __TABLE_HDR__; --table-alt: __TABLE_ALT__;
  --tab-bg: __TAB_BG__; --tab-active-bg: __TAB_ACTIVE_BG__;
  --tab-hover-bg: __TAB_HOVER_BG__; --toolbar-bg: __TOOLBAR_BG__;
}
* { box-sizing: border-box; }
body { margin: 0; background: var(--bg); color: var(--fg);
  font-family: -apple-system, "Segoe UI", "Microsoft YaHei", Helvetica, Arial, sans-serif; }
.toolbar { position: sticky; top: 0; z-index: 10; display: flex; align-items: center; gap: 8px;
  padding: 6px 12px; background: var(--toolbar-bg); border-bottom: 1px solid var(--border); }
.toolbar .logo { display: inline-flex; width: 24px; height: 24px; align-items: center; justify-content: center;
  border-radius: 5px; background: #4a6ae0; color: #fff; font-weight: 700; }
.toolbar .title { font-weight: 600; margin-right: 12px; }
.toolbar button { background: transparent; color: var(--fg); border: 1px solid var(--border);
  border-radius: 6px; padding: 3px 10px; cursor: pointer; }
.toolbar button:hover { background: var(--tab-hover-bg); }
.toolbar .spacer { flex: 1; }
.toolbar .version { color: var(--muted); font-size: 12px; }
.tabbar { position: sticky; top: 37px; z-index: 9; display: flex; align-items: flex-end; gap: 2px;
  padding: 4px 8px 0; background: var(--tab-bg); border-bottom: 1px solid var(--border); overflow-x: auto; }
.tab { display: flex; align-items: center; gap: 6px; padding: 6px 10px; border: 1px solid transparent;
  border-bottom: none; border-radius: 6px 6px 0 0; cursor: pointer; white-space: nowrap; color: var(--muted); }
.tab:hover { background: var(--tab-hover-bg); }
.tab.active { background: var(--tab-active-bg); border-color: var(--border); color: var(--fg); }
.tab-close { border-radius: 4px; padding: 0 4px; font-size: 12px; }
.tab-close:hover { background: var(--tab-hover-bg); color: var(--accent); }
.tab-add { padding: 6px 12px; cursor: pointer; color: var(--muted); font-weight: 700; }
.tab-add:hover { color: var(--accent); }
main { max-width: 980px; margin: 0 auto; padding: 24px 32px 64px; }
.welcome { text-align: center; padding: 80px 20px; color: var(--muted);
  border: 2px dashed var(--border); border-radius: 12px; }
.welcome h1 { color: var(--fg); }
.hidden { display: none !important; }
.dragging main { outline: 3px dashed var(--accent); outline-offset: -12px; }
.markdown-body { line-height: 1.6; word-wrap: break-word; }
.markdown-body h1, .markdown-body h2 { border-bottom: 1px solid var(--border); padding-bottom: .3em; }
.markdown-body a { color: var(--accent); }
.markdown-body code { background: var(--code-bg); padding: .2em .4em; border-radius: 6px; font-size: 85%; }
.markdown-body pre { background: var(--pre-bg); padding: 16px; border-radius: 6px; overflow: auto; }
.markdown-body pre code { background: transparent; padding: 0; }
.markdown-body blockquote { margin: 0; padding: 0 1em; color: var(--muted); border-left: .25em solid var(--border); }
.markdown-body table { border-collapse: collapse; }
.markdown-body th, .markdown-body td { border: 1px solid var(--border); padding: 6px 13px; }
.markdown-body th { background: var(--table-hdr); }
.markdown-body tr:nth-child(2n) { background: var(--table-alt); }
.markdown-body img { max-width: 100%; }
.markdown-body hr { border: 0; border-top: 2px solid var(--border); }
.modal { position: fixed; inset: 0; z-index: 20; display: flex; align-items: center; justify-content: center;
  background: rgba(0,0,0,0.45); }
.modal-box { width: min(520px, 92vw); background: var(--bg); color: var(--fg); border: 1px solid var(--border);
  border-radius: 10px; padding: 20px; }
.modal-box h2 { margin-top: 0; }
.modal-box .row { display: flex; gap: 8px; margin: 12px 0; }
.modal-box input[type=text] { flex: 1; padding: 6px 8px; border: 1px solid var(--border); border-radius: 6px;
  background: var(--pre-bg); color: var(--fg); }
.modal-box button { padding: 6px 12px; border: 1px solid var(--border); border-radius: 6px;
  background: var(--tab-bg); color: var(--fg); cursor: pointer; }
.drop-hint { color: var(--muted); font-size: 13px; }
@media print {
  .toolbar, .tabbar, .modal, .welcome { display: none !important; }
  body { background: #fff; color: #000; }
  main { max-width: none; padding: 0; }
}
</style>
</head>
<body>
<div class="toolbar">
  <span class="logo">M</span><span class="title">Markdown Preview</span>
  <button id="btnOpen" data-i18n="open">打开</button>
  <button id="btnPrint" data-i18n="print">打印</button>
  <span class="spacer"></span>
  <button id="btnLang">中 / EN</button>
  <span class="version">v__VERSION__</span>
</div>
<div class="tabbar" id="tabbar">__TABS__<div class="tab-add" id="tabAdd" title="+">+</div></div>
<main>
  <section id="welcome" class="welcome">
    <h1 data-i18n="welcomeTitle">拖放 Markdown 文件到这里</h1>
    <p data-i18n="welcomeText">或点击工具栏的“打开”按钮选择文件。保存文件后预览会自动刷新。</p>
  </section>
  <article id="content" class="markdown-body">__CONTENT__</article>
</main>
<div id="filePicker" class="modal hidden">
  <div class="modal-box">
    <h2 data-i18n="pickTitle">打开文件</h2>
    <div class="row">
      <button id="modalBrowseBtn" data-i18n="browse">浏览...</button>
      <input type="file" id="modalFileInput" accept=".md,.markdown,.txt" multiple hidden>
    </div>
    <div class="row">
      <input type="text" id="modalPathInput" data-i18n-placeholder="pathHint" placeholder="文件路径">
      <button id="modalOpenPathBtn" data-i18n="openPath">打开路径</button>
    </div>
    <p class="drop-hint" data-i18n="dropHint">也可以把文件拖放到窗口中。</p>
    <div class="row"><button id="modalCloseBtn" data-i18n="cancel">取消</button></div>
  </div>
</div>
<script>
const SERVER_PORT = __PORT__;
let files = __FILES_JSON__;
let activeId = "__ACTIVE_ID__";
const versions = {};
const I18N = {
  zh: { open: "打开", print: "打印", welcomeTitle: "拖放 Markdown 文件到这里",
        welcomeText: "或点击工具栏的“打开”按钮选择文件。保存文件后预览会自动刷新。",
        pickTitle: "打开文件", browse: "浏览...", pathHint: "文件路径", openPath: "打开路径",
        dropHint: "也可以把文件拖放到窗口中。", cancel: "取消" },
  en: { open: "Open", print: "Print", welcomeTitle: "Drop Markdown files here",
        welcomeText: "Or click Open in the toolbar. The preview reloads when you save the file.",
        pickTitle: "Open a file", browse: "Browse...", pathHint: "File path", openPath: "Open path",
        dropHint: "You can also drag and drop files into the window.", cancel: "Cancel" }
};
let lang = localStorage.getItem("mdpreview-lang") || "zh";
function applyLang() {
  const dict = I18N[lang];
  document.documentElement.lang = lang;
  document.querySelectorAll("[data-i18n]").forEach(el => { el.textContent = dict[el.dataset.i18n]; });
  document.querySelectorAll("[data-i18n-placeholder]").forEach(el => { el.placeholder = dict[el.dataset.i18nPlaceholder]; });
}
function showWelcome() {
  document.getElementById("welcome").classList.toggle("hidden", files.length > 0);
  document.getElementById("content").classList.toggle("hidden", files.length === 0);
}
function makeTab(id, name) {
  const tab = document.createElement("div");
  tab.className = "tab";
  tab.dataset.id = id;
  const icon = document.createElement("span"); icon.className = "tab-icon"; icon.textContent = "\u{1F4C4}";
  const label = document.createElement("span"); label.className = "tab-name"; label.textContent = name;
  const close = document.createElement("span"); close.className = "tab-close"; close.dataset.id = id; close.textContent = "\u2715";
  tab.append(icon, label, close);
  document.getElementById("tabbar").insertBefore(tab, document.getElementById("tabAdd"));
  return tab;
}
async function loadContent(id) {
  const res = await fetch("/content?id=" + encodeURIComponent(id));
  const html = await res.text();
  if (id === activeId) {
    const y = window.scrollY;
    document.getElementById("content").innerHTML = html;
    window.scrollTo(0, y);
  }
}
function setActive(id) {
  activeId = id;
  document.querySelectorAll(".tab").forEach(el => el.classList.toggle("active", el.dataset.id === id));
  history.replaceState(null, "", id ? "/?active=" + encodeURIComponent(id) : "/");
  showWelcome();
  if (id) { loadContent(id); } else { document.getElementById("content").innerHTML = ""; }
}
async function closeTab(id) {
  await fetch("/close?id=" + encodeURIComponent(id), { method: "POST" });
  files = files.filter(f => f.id !== id);
  delete versions[id];
  const tab = document.querySelector('.tab[data-id="' + CSS.escape(id) + '"]');
  if (tab) { tab.remove(); }
  if (activeId === id) { setActive(files.length > 0 ? files[0].id : ""); } else { showWelcome(); }
}
function remember(id, name) {
  if (!files.some(f => f.id === id)) { files.push({ id: id, name: name }); makeTab(id, name); }
  setActive(id);
}
async function uploadFile(file) {
  const text = await file.text();
  const res = await fetch("/upload", { method: "POST", headers: { "Content-Type": "application/json" },
    body: JSON.stringify({ content: text, name: file.name }) });
  const id = (await res.text()).trim();
  if (id.startsWith("ERROR")) { alert(id); return; }
  versions[id] = undefined;
  remember(id, file.name);
  if (activeId === id) { loadContent(id); }
}
async function openPath(path) {
  const res = await fetch("/open", { method: "POST", headers: { "Content-Type": "application/json" },
    body: JSON.stringify({ path: path }) });
  const id = (await res.text()).trim();
  if (id.startsWith("ERROR")) { alert(id); return; }
  const info = await (await fetch("/info")).json();
  const entry = info.files.find(f => f.id === id);
  remember(id, entry ? entry.name : id);
}
async function poll() {
  if (!activeId) { return; }
  const id = activeId;
  const res = await fetch("/check?id=" + encodeURIComponent(id));
  const v = (await res.text()).trim();
  if (versions[id] !== undefined && versions[id] !== v) { loadContent(id); }
  versions[id] = v;
}
function openPicker() { document.getElementById("filePicker").classList.remove("hidden"); }
function closePicker() { document.getElementById("filePicker").classList.add("hidden"); }
document.getElementById("tabbar").addEventListener("click", ev => {
  const close = ev.target.closest(".tab-close");
  if (close) { ev.stopPropagation(); closeTab(close.dataset.id); return; }
  const tab = ev.target.closest(".tab");
  if (tab) { setActive(tab.dataset.id); return; }
  if (ev.target.closest(".tab-add")) { openPicker(); }
});
document.getElementById("btnOpen").addEventListener("click", openPicker);
document.getElementById("btnPrint").addEventListener("click", () => window.print());
document.getElementById("btnLang").addEventListener("click", () => {
  lang = lang === "zh" ? "en" : "zh";
  localStorage.setItem("mdpreview-lang", lang);
  applyLang();
});
document.getElementById("modalBrowseBtn").addEventListener("click", () => document.getElementById("modalFileInput").click());
document.getElementById("modalFileInput").addEventListener("change", async ev => {
  closePicker();
  for (const f of ev.target.files) { await uploadFile(f); }
  ev.target.value = "";
});
document.getElementById("modalOpenPathBtn").addEventListener("click", async () => {
  const path = document.getElementById("modalPathInput").value.trim();
  if (path) { closePicker(); await openPath(path); }
});
document.getElementById("modalCloseBtn").addEventListener("click", closePicker);
document.addEventListener("dragover", ev => { ev.preventDefault(); document.body.classList.add("dragging"); });
document.addEventListener("dragleave", () => document.body.classList.remove("dragging"));
document.addEventListener("drop", async ev => {
  ev.preventDefault();
  document.body.classList.remove("dragging");
  for (const f of ev.dataTransfer.files) { await uploadFile(f); }
});
applyLang();
showWelcome();
if (activeId) { poll(); }
setInterval(poll, 1500);
</script>
</body>
</html>
"##;

} // verus!
