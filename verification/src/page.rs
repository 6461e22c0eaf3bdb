//! The full dashboard page.
use vstd::prelude::*;

use crate::categories::{categories_of, extract_categories, lists_categories};
use crate::color::{custom_css, filters_html, render_custom_css, render_filters};
use crate::model::{App, ContainerPort, KnownPort, TagColor};
use crate::rows::{all_rows, build_rows, row_views, RowData, RowView};
use crate::text::{decimal, push_decimal};

verus! {

/// The dashboard stylesheet.
pub const CSS: &'static str = r"
  * { margin: 0; padding: 0; box-sizing: border-box; }

  body {
    font-family: 'Inter', -apple-system, BlinkMacSystemFont, sans-serif;
    background: #09090b;
    color: #d4d4d4;
    min-height: 100vh;
    display: flex;
    justify-content: center;
    padding: 2rem 1rem;
    background-image:
      radial-gradient(ellipse 80% 50% at 50% -20%, rgba(120, 80, 255, 0.15), transparent),
      radial-gradient(ellipse 60% 40% at 80% 100%, rgba(34, 197, 94, 0.08), transparent);
  }

  .noise-svg {
    position: fixed;
    inset: 0;
    width: 100%;
    height: 100%;
    z-index: 0;
    pointer-events: none;
    opacity: 0.03;
  }

  body > :not(.noise-svg) { position: relative; z-index: 1; }

  .shell {
    width: 100%;
    max-width: 720px;
  }

  nav {
    display: flex;
    align-items: center;
    justify-content: space-between;
    margin-bottom: 0.75rem;
    padding: 0 0.25rem;
  }

  .nav-left {
    display: flex;
    align-items: center;
    gap: 0.6rem;
  }

  .logo {
    font-size: 1rem;
    color: #fff;
  }

  h1 {
    font-size: 0.9rem;
    font-weight: 600;
    color: #fff;
    letter-spacing: -0.01em;
  }

  .pill {
    font-size: 0.65rem;
    color: #b3b3b3;
    background: rgba(255,255,255,0.04);
    padding: 0.15rem 0.5rem;
    border-radius: 9999px;
    border: 1px solid rgba(255,255,255,0.06);
  }

  .pill-range {
    opacity: 0.5;
    margin-left: 0.15rem;
  }

  .nav-right {
    display: flex;
    align-items: center;
    gap: 0.6rem;
  }

  .meta {
    font-size: 0.65rem;
    color: #b3b3b3;
  }

  #last-scanned {
    opacity: 0.5;
  }

  .dropdown {
    position: relative;
  }
  .dropdown-trigger {
    font-size: 0.6rem;
  }
  .dropdown-menu {
    display: none;
    position: absolute;
    top: calc(100% + 4px);
    right: 0;
    background: #1a1a1e;
    border: 1px solid rgba(255,255,255,0.08);
    border-radius: 8px;
    padding: 4px;
    min-width: 100px;
    z-index: 100;
    box-shadow: 0 8px 24px rgba(0,0,0,0.5);
  }
  .dropdown.open .dropdown-menu {
    display: block;
  }
  .dropdown-item {
    display: block;
    width: 100%;
    padding: 5px 10px;
    background: none;
    border: none;
    color: #999;
    font-family: inherit;
    font-size: 0.65rem;
    text-align: left;
    cursor: pointer;
    border-radius: 4px;
    transition: all 0.1s;
  }
  .dropdown-item:hover {
    background: rgba(255,255,255,0.06);
    color: #ccc;
  }
  .dropdown-item.active {
    color: #d4d4d4;
  }
  .dropdown-header {
    padding: 4px 10px 2px;
    font-size: 0.55rem;
    color: #666;
    text-transform: uppercase;
    letter-spacing: 0.04em;
  }

  .btn {
    display: inline-flex;
    align-items: center;
    justify-content: center;
    gap: 0.35rem;
    padding: 0.3rem 0.5rem;
    background: rgba(255,255,255,0.04);
    border: 1px solid rgba(255,255,255,0.07);
    color: #666;
    font-family: inherit;
    font-size: 0.7rem;
    border-radius: 6px;
    cursor: pointer;
    transition: all 0.12s;
  }

  .btn:hover {
    background: rgba(255,255,255,0.08);
    color: #aaa;
    border-color: rgba(255,255,255,0.12);
  }

  .card {
    background: linear-gradient(180deg, rgba(255,255,255,0.03) 0%, rgba(255,255,255,0.01) 100%);
    border: 1px solid rgba(255,255,255,0.06);
    border-radius: 10px;
    overflow: auto;
    backdrop-filter: blur(8px);
    max-height: 75vh;
  }

  table { width: 100%; border-collapse: collapse; }

  .row {
    border-bottom: 1px solid rgba(255,255,255,0.04);
    cursor: pointer;
    transition: background 0.1s;
  }

  .row:last-child { border-bottom: none; }

  .row:hover {
    background: rgba(255,255,255,0.03);
  }

  .row.is-down {
    opacity: 0.65;
  }

  .row.is-down:hover {
    opacity: 0.85;
  }

  .c-source {
    width: 60px;
    font-size: 0.6rem;
    color: #555;
    vertical-align: middle;
  }

  .source-pill, .offline-pill {
    font-size: 0.6rem;
    color: #555;
  }

  td {
    padding: 0.65rem 0.75rem;
    vertical-align: middle;
  }

  .c-status {
    width: 28px;
    padding-left: 0.75rem;
    vertical-align: middle;
    line-height: 0;
  }

  .dot {
    display: inline-block;
    width: 6px;
    height: 6px;
    border-radius: 50%;
  }

  .dot.alive {
    background: #22c55e;
    box-shadow: 0 0 5px rgba(34, 197, 94, 0.35);
  }

  .dot.down {
    background: #333;
  }

  .c-name {
    font-size: 0.875rem;
    font-weight: 500;
    color: #ccc;
  }

  .unnamed {
    color: #999;
    font-weight: 400;
  }

  .add-label {
    color: transparent;
    font-size: 0.65rem;
    margin-left: 0.5rem;
    cursor: pointer;
    transition: color 0.1s;
  }

  .row:hover .add-label { color: #555; }
  .add-label:hover { color: #999 !important; text-decoration: underline; }

  .c-badge { width: 120px; white-space: nowrap; }

  .badge {
    display: inline-block;
    font-size: 0.65rem;
    font-weight: 500;
    padding: 0.1rem 0.45rem;
    border-radius: 4px;
    text-transform: lowercase;
    letter-spacing: 0.03em;
    background: rgba(200, 200, 200, 0.08);
    color: rgba(200, 200, 200, 0.7);
    border: 1px solid rgba(200, 200, 200, 0.1);
  }

  .badge.badge-frontend {
    background: rgba(56, 189, 248, 0.08);
    color: rgba(56, 189, 248, 0.7);
    border: 1px solid rgba(56, 189, 248, 0.1);
  }

  .badge.badge-backend {
    background: rgba(74, 222, 128, 0.08);
    color: rgba(74, 222, 128, 0.7);
    border: 1px solid rgba(74, 222, 128, 0.1);
  }

  .badge.badge-mcp {
    background: rgba(168, 85, 247, 0.08);
    color: rgba(168, 85, 247, 0.7);
    border: 1px solid rgba(168, 85, 247, 0.1);
  }

  .badge.badge-macos {
    background: rgba(148, 148, 148, 0.08);
    color: rgba(148, 148, 148, 0.6);
    border: 1px solid rgba(148, 148, 148, 0.1);
  }

  .cat-inline {
    width: 80px;
  }

  .c-port {
    text-align: right;
    font-size: 0.8rem;
    color: #555;
    font-variant-numeric: tabular-nums;
    padding-right: 0.4rem;
  }

  .c-actions {
    width: 56px;
    text-align: right;
    padding-right: 1rem;
    white-space: nowrap;
    vertical-align: middle;
    line-height: 0;
  }

  .c-actions button {
    background: none;
    border: none;
    color: transparent;
    cursor: pointer;
    padding: 3px;
    line-height: 1;
    transition: color 0.1s;
    vertical-align: middle;
  }

  .c-actions button + button { margin-left: 4px; }

  .row:hover .act-edit,
  .row.menu-active .act-edit { color: #666; }
  .act-edit:hover { color: #ccc !important; }

  .row:hover .act-more,
  .row.menu-active .act-more { color: #444; }
  .act-more:hover { color: #999 !important; }

  .row.menu-active {
    background: rgba(255,255,255,0.04);
  }

  .links {
    display: flex;
    align-items: center;
    gap: 1rem;
    padding: 0.6rem 0.25rem;
    position: relative;
  }

  .links a {
    color: #555;
    text-decoration: none;
    font-size: 0.65rem;
    transition: color 0.12s;
  }

  .links a:hover { color: #999; }

  .links-port {
    color: #444;
    font-size: 0.65rem;
  }

  .gh {
    color: #333;
    transition: color 0.12s;
    display: inline-flex;
    position: absolute;
    left: 50%;
    transform: translateX(-50%);
  }

  .gh:hover { color: #888; }

  .links-port { margin-left: auto; }

  .filters {
    display: flex;
    flex-wrap: wrap;
    gap: 0.35rem;
    margin-bottom: 0.5rem;
    padding: 0 0.1rem;
  }

  .filter {
    font-family: inherit;
    font-size: 0.75rem;
    font-weight: 500;
    padding: 0.2rem 0.6rem;
    border-radius: 5px;
    border: 1px solid rgba(255,255,255,0.06);
    background: rgba(255,255,255,0.02);
    color: #555;
    cursor: pointer;
    transition: all 0.12s;
    text-transform: lowercase;
  }

  .filter:hover {
    background: rgba(255,255,255,0.05);
    color: #888;
    border-color: rgba(255,255,255,0.1);
  }

  .filter.active {
    background: rgba(255,255,255,0.08);
    color: #ccc;
    border-color: rgba(255,255,255,0.12);
  }

  .color-dot {
    display: inline-block;
    width: 7px;
    height: 7px;
    border-radius: 50%;
    margin-left: 0.35rem;
    vertical-align: middle;
    margin-top: -2px;
    opacity: 0;
    transition: opacity 0.15s;
    cursor: pointer;
    position: relative;
  }

  .color-dot::before {
    content: '';
    position: absolute;
    inset: -6px;
  }

  .color-dot-hollow {
    border: 1.5px solid rgba(255,255,255,0.25);
    background: transparent !important;
  }

  .filter .color-dot { opacity: 0.5; }
  .filter:hover .color-dot,
  .filter.active .color-dot { opacity: 0.7; }
  .color-dot:hover { opacity: 1 !important; }


  .filter[data-category='frontend'] { border-color: rgba(56, 189, 248, 0.2); }
  .filter[data-category='frontend'].active { background: rgba(56, 189, 248, 0.12); color: rgba(56, 189, 248, 0.8); border-color: rgba(56, 189, 248, 0.3); }

  .filter[data-category='backend'] { border-color: rgba(74, 222, 128, 0.2); }
  .filter[data-category='backend'].active { background: rgba(74, 222, 128, 0.12); color: rgba(74, 222, 128, 0.8); border-color: rgba(74, 222, 128, 0.3); }

  .filter[data-category='mcp'] { border-color: rgba(168, 85, 247, 0.2); }
  .filter[data-category='mcp'].active { background: rgba(168, 85, 247, 0.12); color: rgba(168, 85, 247, 0.8); border-color: rgba(168, 85, 247, 0.3); }

  .empty {
    text-align: center;
    color: #444;
    padding: 2rem 1rem;
    font-size: 0.8rem;
  }

  .row.editing {
    background: linear-gradient(90deg, rgba(139, 92, 246, 0.08) 0%, rgba(139, 92, 246, 0.03) 100%);
    box-shadow: inset 3px 0 0 rgba(139, 92, 246, 0.5);
  }

  .row.editing .c-name-text,
  .row.editing .c-badge-text { display: none; }

  .row.editing .inline-input { display: inline-block !important; }

  .inline-input {
    background: rgba(255,255,255,0.04);
    border: 1px solid rgba(255,255,255,0.1);
    color: #e0e0e0;
    font-family: inherit;
    font-size: 0.75rem;
    padding: 0.2rem 0.45rem;
    border-radius: 5px;
    outline: none;
    width: 100%;
    transition: border-color 0.12s;
  }

  .inline-input:focus {
    border-color: rgba(255,255,255,0.25);
  }

  #row-menu {
    position: fixed;
    z-index: 100;
    background: #1a1a1e;
    border: 1px solid rgba(255,255,255,0.1);
    border-radius: 8px;
    padding: 0.3rem;
    box-shadow: 0 8px 24px rgba(0,0,0,0.5);
    min-width: 140px;
  }

  .row-menu-item {
    display: block;
    width: 100%;
    background: none;
    border: none;
    color: #999;
    font-family: inherit;
    font-size: 0.7rem;
    padding: 0.35rem 0.6rem;
    text-align: left;
    cursor: pointer;
    border-radius: 4px;
    transition: all 0.1s;
  }

  .row-menu-item svg {
    vertical-align: -2px;
    margin-right: 0.3rem;
  }

  .row-menu-item:hover {
    background: rgba(255,255,255,0.06);
    color: #ddd;
  }

  .row-menu-warn:hover {
    background: rgba(245, 158, 11, 0.1);
    color: #f59e0b;
  }

  .row-menu-danger:hover {
    background: rgba(239, 68, 68, 0.1);
    color: #ef4444;
  }

  #color-menu {
    position: fixed;
    z-index: 100;
    background: #1a1a1e;
    border: 1px solid rgba(255,255,255,0.1);
    border-radius: 8px;
    padding: 0.5rem;
    box-shadow: 0 8px 24px rgba(0,0,0,0.5);
  }

  .color-grid {
    display: grid;
    grid-template-columns: repeat(5, 1fr);
    gap: 4px;
  }

  .color-swatch {
    width: 22px;
    height: 22px;
    border-radius: 4px;
    border: 1px solid rgba(255,255,255,0.1);
    cursor: pointer;
    transition: transform 0.1s, border-color 0.1s;
  }

  .color-swatch:hover {
    transform: scale(1.2);
    border-color: rgba(255,255,255,0.3);
  }

  .color-reset {
    width: 100%;
    margin-top: 4px;
    background: none;
    border: 1px solid rgba(255,255,255,0.06);
    color: #666;
    font-family: inherit;
    font-size: 0.6rem;
    padding: 0.15rem;
    border-radius: 4px;
    cursor: pointer;
    transition: all 0.1s;
  }

  .color-reset:hover {
    background: rgba(255,255,255,0.05);
    color: #999;
  }

  #toasts {
    position: fixed;
    bottom: 1.5rem;
    right: 1.5rem;
    z-index: 200;
    display: flex;
    flex-direction: column;
    gap: 0.4rem;
    align-items: flex-end;
  }

  .toast {
    font-family: inherit;
    font-size: 0.75rem;
    padding: 0.5rem 0.8rem;
    border-radius: 6px;
    background: #1a1a1e;
    border: 1px solid rgba(255,255,255,0.08);
    color: #ccc;
    box-shadow: 0 4px 12px rgba(0,0,0,0.4);
    animation: toast-in 0.2s ease-out;
    transition: opacity 0.3s;
  }

  .toast.toast-error {
    border-color: rgba(239, 68, 68, 0.3);
    color: #ef4444;
  }

  @keyframes toast-in {
    from { opacity: 0; transform: translateY(8px); }
    to { opacity: 1; transform: translateY(0); }
  }

  @keyframes spin { to { transform: rotate(360deg); } }
  .btn.spinning svg { animation: spin 0.6s linear infinite; }
";

/// The dashboard script.
pub const SCRIPT: &'static str = r#"
<script>
let editingRow = null;
let colorMenuTarget = null;
let pendingRefresh = null;

function go(port) {
  if (editingRow) return;
  window.open('http://localhost:' + port, '_blank');
}

function inlineEdit(e, row) {
  e.preventDefault();
  if (editingRow === row) return;
  if (editingRow) cancelEdit();
  editingRow = row;
  row.classList.add('editing');
  const nameInput = row.querySelector('[data-field="name"]');
  const catInput = row.querySelector('[data-field="category"]');
  nameInput.value = row.dataset.name || '';
  catInput.value = row.dataset.category || '';
  nameInput.focus();
  nameInput.select();
}

function cancelEdit() {
  if (!editingRow) return;
  editingRow.classList.remove('editing');
  editingRow = null;
  if (pendingRefresh) {
    applyRefresh(pendingRefresh);
    pendingRefresh = null;
  }
}

async function saveEdit(row) {
  const port = parseInt(row.dataset.port);
  const appId = parseInt(row.dataset.appId);
  const name = row.querySelector('[data-field="name"]').value.trim();
  const category = row.querySelector('[data-field="category"]').value.trim();

  if (appId > 0) {
    await fetch(`/api/apps/${appId}`, {
      method: 'PUT',
      headers: { 'Content-Type': 'application/json' },
      body: JSON.stringify({ name: name || null, category: category || null })
    });
  } else if (name || category) {
    await fetch('/api/apps', {
      method: 'POST',
      headers: { 'Content-Type': 'application/json' },
      body: JSON.stringify({ name: name || null, port, category: category || 'other' })
    });
  }
  cancelEdit();
}

function getActiveFilter() {
  const btn = document.querySelector('.filter.active');
  if (!btn) return 'all';
  return btn.dataset.category || 'all';
}

function matchesFilter(row, cat) {
  if (cat === 'all') return true;
  if (cat === '__offline') return row.dataset.alive === 'false';
  const badge = row.querySelector('.badge');
  const rowCat = badge ? badge.textContent.trim() : '';
  return rowCat === cat;
}

function filterBy(cat, btn) {
  document.querySelectorAll('.filter').forEach(b => b.classList.remove('active'));
  if (btn) btn.classList.add('active');
  document.querySelectorAll('.row').forEach(row => {
    row.style.display = matchesFilter(row, cat) ? '' : 'none';
  });
}

function reapplyFilter() {
  const cat = getActiveFilter();
  document.querySelectorAll('.row').forEach(row => {
    row.style.display = matchesFilter(row, cat) ? '' : 'none';
  });
}

function showToast(msg, isError) {
  const container = document.getElementById('toasts');
  const el = document.createElement('div');
  el.className = 'toast' + (isError ? ' toast-error' : '');
  el.textContent = msg;
  container.appendChild(el);
  setTimeout(() => { el.style.opacity = '0'; setTimeout(() => el.remove(), 300); }, 3000);
}

async function deleteApp(appId) {
  const resp = await fetch(`/api/apps/${appId}`, { method: 'DELETE' });
  if (resp.ok) showToast('Unregistered');
  else showToast('Failed to unregister', true);
}

async function killPort(port) {
  const resp = await fetch(`/api/kill/${port}`, { method: 'POST' });
  if (resp.ok) {
    showToast('Process killed');
  } else {
    const msg = await resp.text();
    showToast(msg || 'Failed to kill process', true);
  }
}

// -- Row context menu --
let rowMenuTarget = null;

function showRowMenu(e, row) {
  e.preventDefault();
  e.stopPropagation();
  if (editingRow) cancelEdit();
  if (rowMenuTarget) rowMenuTarget.classList.remove('menu-active');
  rowMenuTarget = row;
  row.classList.add('menu-active');

  const menu = document.getElementById('row-menu');
  const port = row.dataset.port;
  const appId = parseInt(row.dataset.appId);
  const alive = row.dataset.alive === 'true';

  // Show/hide items based on context
  const source = row.dataset.source || '';
  const isContainer = source === 'docker' || source === 'podman';
  const killItem = menu.querySelector('[data-action="kill"]');
  const delItem = menu.querySelector('[data-action="delete"]');
  killItem.style.display = (alive && !isContainer) ? '' : 'none';
  delItem.style.display = appId > 0 ? '' : 'none';

  menu.style.display = 'block';
  const x = Math.min(e.clientX, window.innerWidth - 160);
  const y = Math.min(e.clientY, window.innerHeight - 140);
  menu.style.left = x + 'px';
  menu.style.top = y + 'px';
}

function hideRowMenu() {
  document.getElementById('row-menu').style.display = 'none';
  if (rowMenuTarget) rowMenuTarget.classList.remove('menu-active');
  rowMenuTarget = null;
}

function initRowMenu() {
  const menu = document.getElementById('row-menu');
  menu.addEventListener('click', (e) => {
    const item = e.target.closest('.row-menu-item');
    if (!item || !rowMenuTarget) return;
    const action = item.dataset.action;
    const row = rowMenuTarget;
    hideRowMenu();
    if (action === 'edit') { e.stopPropagation(); inlineEdit(e, row); }
    else if (action === 'kill') killPort(parseInt(row.dataset.port));
    else if (action === 'delete') deleteApp(parseInt(row.dataset.appId));
  });
}

// -- Color picker --
const COLOR_SWATCHES = [
  '#ef4444', '#f97316', '#eab308', '#22c55e', '#14b8a6',
  '#38bdf8', '#8b5cf6', '#ec4899', '#6b7280', '#f5f5f4'
];

function initColorMenu() {
  const menu = document.getElementById('color-menu');
  const grid = menu.querySelector('.color-grid');
  COLOR_SWATCHES.forEach(hex => {
    const swatch = document.createElement('div');
    swatch.className = 'color-swatch';
    swatch.style.background = hex;
    swatch.dataset.color = hex;
    swatch.addEventListener('click', () => setTagColor(hex));
    grid.appendChild(swatch);
  });
  menu.querySelector('.color-reset').addEventListener('click', resetTagColor);
}

function showColorMenu(e, category) {
  e.preventDefault();
  e.stopPropagation();
  colorMenuTarget = category;
  const menu = document.getElementById('color-menu');
  menu.style.display = 'block';
  const x = Math.min(e.clientX, window.innerWidth - 140);
  const y = Math.min(e.clientY, window.innerHeight - 160);
  menu.style.left = x + 'px';
  menu.style.top = y + 'px';
}

function hideColorMenu() {
  document.getElementById('color-menu').style.display = 'none';
  colorMenuTarget = null;
}

async function setTagColor(hex) {
  if (!colorMenuTarget) return;
  await fetch(`/api/tag-colors/${encodeURIComponent(colorMenuTarget)}`, {
    method: 'PUT',
    headers: { 'Content-Type': 'application/json' },
    body: JSON.stringify({ color: hex })
  });
  hideColorMenu();
}

async function resetTagColor() {
  if (!colorMenuTarget) return;
  await fetch(`/api/tag-colors/${encodeURIComponent(colorMenuTarget)}`, {
    method: 'DELETE'
  });
  hideColorMenu();
}

document.addEventListener('keydown', e => {
  if (e.key === 'Enter' && editingRow) { e.preventDefault(); saveEdit(editingRow); }
  if (e.key === 'Escape') { cancelEdit(); hideColorMenu(); hideRowMenu(); }
});

document.addEventListener('click', e => {
  if (editingRow && !editingRow.contains(e.target)) cancelEdit();
  const colorMenu = document.getElementById('color-menu');
  if (colorMenuTarget && !colorMenu.contains(e.target)) hideColorMenu();
  const rowMenu = document.getElementById('row-menu');
  if (rowMenuTarget && !rowMenu.contains(e.target)) hideRowMenu();
});

function showScanning() {
  document.getElementById('refresh-btn').classList.add('spinning');
}

function hideScanning() {
  document.getElementById('refresh-btn').classList.remove('spinning');
}

function triggerRefresh() {
  showScanning();
  fetch('/api/refresh', { method: 'POST' });
}

// -- Auto-refresh dropdown --
let autoRefreshTimer = null;
const arDropdown = document.getElementById('auto-refresh-dropdown');
const arBtn = document.getElementById('auto-refresh-btn');
const arLabels = { '0': 'Off', '1': 'Every 1 min', '5': 'Every 5 min', '15': 'Every 15 min', '30': 'Every 30 min', '60': 'Every hour', '1440': 'Every day' };
const AR_DEFAULT = 1440;

arBtn.addEventListener('click', (e) => {
  e.stopPropagation();
  arDropdown.classList.toggle('open');
});

arDropdown.querySelector('.dropdown-menu').addEventListener('click', (e) => {
  const item = e.target.closest('.dropdown-item');
  if (!item) return;
  const mins = parseInt(item.dataset.value);
  arDropdown.querySelectorAll('.dropdown-item').forEach(i => i.classList.remove('active'));
  item.classList.add('active');
  arBtn.textContent = mins === 0 ? 'Auto-refresh: off' : arLabels[String(mins)];
  arDropdown.classList.remove('open');
  setupAutoRefresh(mins);
});

document.addEventListener('click', () => arDropdown.classList.remove('open'));

function setupAutoRefresh(mins) {
  if (autoRefreshTimer) { clearInterval(autoRefreshTimer); autoRefreshTimer = null; }
  if (mins > 0) {
    autoRefreshTimer = setInterval(() => {
      fetch('/api/refresh', { method: 'POST' });
    }, mins * 60 * 1000);
  }
  localStorage.setItem('portmap-auto-refresh', mins);
}

// Restore saved auto-refresh preference (default: every day)
(function() {
  const saved = localStorage.getItem('portmap-auto-refresh');
  const mins = saved !== null ? parseInt(saved) : AR_DEFAULT;
  const key = String(mins);
  const item = arDropdown.querySelector('.dropdown-item[data-value="' + key + '"]');
  if (item) {
    arDropdown.querySelectorAll('.dropdown-item').forEach(i => i.classList.remove('active'));
    item.classList.add('active');
    arBtn.textContent = mins === 0 ? 'Auto-refresh: off' : arLabels[key];
  }
  setupAutoRefresh(mins);
})();

// -- Last scanned display --
let lastScannedEpoch = null;

function updateLastScannedDisplay() {
  const el = document.getElementById('last-scanned');
  if (!lastScannedEpoch) { el.textContent = ''; return; }
  const d = new Date(lastScannedEpoch * 1000);
  const time = d.toLocaleTimeString([], { hour: '2-digit', minute: '2-digit' });
  const ago = Math.round(Date.now() / 1000 - lastScannedEpoch);
  if (ago < 5) el.textContent = 'Updated ' + time;
  else if (ago < 60) el.textContent = 'Updated ' + time + ' (' + ago + 's ago)';
  else if (ago < 3600) el.textContent = 'Updated ' + time + ' (' + Math.round(ago / 60) + 'm ago)';
  else if (ago < 86400) el.textContent = 'Updated ' + time + ' (' + Math.round(ago / 3600) + 'h ago)';
  else el.textContent = 'Updated ' + d.toLocaleDateString();
}

setInterval(updateLastScannedDisplay, 30000);

// Event delegation for filter clicks — color dot opens picker, body filters
document.querySelector('.filters').addEventListener('click', e => {
  const dot = e.target.closest('.color-dot');
  if (dot) {
    e.stopPropagation();
    showColorMenu(e, dot.dataset.category);
    return;
  }
  const btn = e.target.closest('.filter');
  if (btn) filterBy(btn.dataset.category || 'all', btn);
});

// Right-click on filter buttons as shortcut to color picker
document.addEventListener('contextmenu', e => {
  const filterBtn = e.target.closest('.filter[data-category]');
  if (filterBtn) showColorMenu(e, filterBtn.dataset.category);
});

// -- SSE live updates with row-level diffing --
function applyRefresh(data) {
  // Update pill text (preserve the range span)
  const pill = document.getElementById('pill');
  const rangeSpan = pill.querySelector('.pill-range');
  const rangeHTML = rangeSpan ? rangeSpan.outerHTML : '';
  pill.innerHTML = data.pill + ' ' + rangeHTML;
  if (data.discovered) {
    hideScanning();
  }
  // Update last-scanned timestamp
  if (data.last_scanned) {
    lastScannedEpoch = data.last_scanned;
    updateLastScannedDisplay();
  }

  // Update filter buttons (preserve active state)
  const activeCat = getActiveFilter();
  const filtersEl = document.querySelector('.filters');
  filtersEl.innerHTML = data.filters_html;
  let newActive = null;
  filtersEl.querySelectorAll('.filter').forEach(b => {
    b.classList.remove('active');
    const bCat = b.dataset.category || 'all';
    if (bCat === activeCat) newActive = b;
  });
  if (!newActive) newActive = filtersEl.querySelector('.filter');
  if (newActive) newActive.classList.add('active');

  // Update custom tag-color CSS
  document.getElementById('custom-colors').textContent = data.custom_css;

  // Diff rows
  const card = document.querySelector('.card');
  if (data.rows.length === 0) {
    card.innerHTML = '<p class="empty">No active ports found.</p>';
    return;
  }

  let table = card.querySelector('table');
  if (!table) {
    card.innerHTML = '<table></table>';
    table = card.querySelector('table');
  }
  const container = table.querySelector('tbody') || table;

  // Index current rows by port
  const currentRows = new Map();
  container.querySelectorAll('tr[data-port]').forEach(tr => {
    currentRows.set(tr.dataset.port, tr);
  });

  const newPorts = new Set();

  // Update or insert rows
  data.rows.forEach(row => {
    const key = String(row.port);
    newPorts.add(key);
    const existing = currentRows.get(key);

    if (existing) {
      // Only replace if data actually changed
      if (existing.dataset.name !== row.name ||
          existing.dataset.category !== row.category ||
          existing.dataset.appId !== String(row.app_id) ||
          existing.dataset.alive !== String(row.alive) ||
          existing.dataset.source !== (row.source || '')) {
        const temp = document.createElement('tbody');
        temp.innerHTML = row.html;
        const newTr = temp.firstElementChild;
        existing.replaceWith(newTr);
      }
    } else {
      const temp = document.createElement('tbody');
      temp.innerHTML = row.html;
      container.appendChild(temp.firstElementChild);
    }
  });

  // Remove rows no longer present
  currentRows.forEach((tr, port) => {
    if (!newPorts.has(port)) tr.remove();
  });

  // Reorder to match server order if needed
  const curOrder = [...container.querySelectorAll('tr[data-port]')].map(t => t.dataset.port);
  const srvOrder = data.rows.map(r => String(r.port));
  if (curOrder.join(',') !== srvOrder.join(',')) {
    srvOrder.forEach(p => {
      const tr = container.querySelector('tr[data-port="' + p + '"]');
      if (tr) container.appendChild(tr);
    });
  }

  reapplyFilter();
}

const evtSource = new EventSource('/events');
evtSource.addEventListener('refresh', (e) => {
  hideRowMenu();
  const data = JSON.parse(e.data);
  if (editingRow) {
    pendingRefresh = data;
    return;
  }
  applyRefresh(data);
});

evtSource.addEventListener('scan', (e) => {
  if (e.data === 'start') showScanning();
  else hideScanning();
});

initColorMenu();
initRowMenu();

// Trigger an initial scan so we get a last-scanned timestamp via SSE.
// Called directly (not in SSE 'open') to avoid a race where 'open' fires
// before the listener is registered.
fetch('/api/refresh', { method: 'POST' });
</script>
"#;

pub const PAGE_HEAD: &'static str = r#"<!DOCTYPE html>
<html lang="en">
<head>
<meta charset="utf-8" />
<link rel="icon" href="data:image/svg+xml,<svg xmlns='http://www.w3.org/2000/svg' viewBox='0 0 100 100'><text y='.88em' font-size='80' fill='%23999'>◎</text></svg>" />
<meta name="viewport" content="width=device-width, initial-scale=1" />
<title>portmap</title>
<link rel="preconnect" href="https://fonts.googleapis.com" />
<link rel="preconnect" href="https://fonts.gstatic.com" crossorigin />
<link href="https://fonts.googleapis.com/css2?family=Inter:wght@400;500;600&display=swap" rel="stylesheet" />
<style>
"#;

pub const PAGE_CUSTOM_CSS: &'static str = r#"
</style>
<style id="custom-colors">
"#;

pub const PAGE_PILL: &'static str = r#"
</style>
</head>
<body>
  <svg class="noise-svg" aria-hidden="true"><filter id="grain"><feTurbulence type="fractalNoise" baseFrequency="0.8" numOctaves="4" stitchTiles="stitch"/></filter><rect width="100%" height="100%" filter="url(#grain)"/></svg>
  <div class="shell">
    <nav>
      <div class="nav-left">
        <span class="logo">&#x25ce;</span>
        <h1>portmap</h1>
        <span class="pill" id="pill">"#;

pub const PAGE_PORT_WORD: &'static str = r#" port"#;

pub const PAGE_RANGE: &'static str = r#" <span class="pill-range">&middot; range "#;

pub const PAGE_RANGE_DASH: &'static str = r#"&ndash;"#;

pub const PAGE_NAV: &'static str = r#"</span></span>
      </div>
      <div class="nav-right">
        <span class="meta" id="last-scanned"></span>
        <div class="dropdown" id="auto-refresh-dropdown">
          <button class="btn dropdown-trigger" id="auto-refresh-btn">Every day</button>
          <div class="dropdown-menu">
            <div class="dropdown-header">Auto-refresh</div>
            <button class="dropdown-item" data-value="0">Off</button>
            <button class="dropdown-item" data-value="1">Every 1 min</button>
            <button class="dropdown-item" data-value="5">Every 5 min</button>
            <button class="dropdown-item" data-value="15">Every 15 min</button>
            <button class="dropdown-item" data-value="30">Every 30 min</button>
            <button class="dropdown-item" data-value="60">Every hour</button>
            <button class="dropdown-item active" data-value="1440">Every day</button>
          </div>
        </div>
        <button class="btn" id="refresh-btn" onclick="triggerRefresh()">
          <svg width="12" height="12" viewBox="0 0 24 24" fill="none" stroke="currentColor" stroke-width="2.5" stroke-linecap="round" stroke-linejoin="round"><path d="M21.5 2v6h-6M2.5 22v-6h6M2 11.5a10 10 0 0 1 18.8-4.3M22 12.5a10 10 0 0 1-18.8 4.2"/></svg>
        </button>
      </div>
    </nav>
    <div class="filters">"#;

pub const PAGE_CARD: &'static str = r#"</div>
    <div class="card">
      "#;

pub const PAGE_LINKS: &'static str = r#"
    </div>
    <div class="links">
      <a href="/api/ports">json</a>
      <a href="/markdown">markdown</a>
      <a href="https://github.com/vibber-ai/portmap" class="gh" target="_blank" rel="noopener noreferrer"><svg width="14" height="14" viewBox="0 0 16 16" fill="currentColor"><path d="M8 0C3.58 0 0 3.58 0 8c0 3.54 2.29 6.53 5.47 7.59.4.07.55-.17.55-.38 0-.19-.01-.82-.01-1.49-2.01.37-2.53-.49-2.69-.94-.09-.23-.48-.94-.82-1.13-.28-.15-.68-.52-.01-.53.63-.01 1.08.58 1.23.82.72 1.21 1.87.87 2.33.66.07-.52.28-.87.51-1.07-1.78-.2-3.64-.89-3.64-3.95 0-.87.31-1.59.82-2.15-.08-.2-.36-1.02.08-2.12 0 0 .67-.21 2.2.82.64-.18 1.32-.27 2-.27.68 0 1.36.09 2 .27 1.53-1.04 2.2-.82 2.2-.82.44 1.1.16 1.92.08 2.12.51.56.82 1.27.82 2.15 0 3.07-1.87 3.75-3.65 3.95.29.25.54.73.54 1.48 0 1.07-.01 1.93-.01 2.2 0 .21.15.46.55.38A8.01 8.01 0 0016 8c0-4.42-3.58-8-8-8z"/></svg></a>
      <span class="links-port">:"#;

pub const PAGE_MENUS: &'static str = r#"</span>
    </div>
  </div>
  <div id="row-menu" style="display:none">
    <button class="row-menu-item" data-action="edit"><svg width="12" height="12" viewBox="0 0 24 24" fill="none" stroke="currentColor" stroke-width="2" stroke-linecap="round" stroke-linejoin="round"><path d="M17 3a2.85 2.83 0 1 1 4 4L7.5 20.5 2 22l1.5-5.5Z"/></svg> Edit</button>
    <button class="row-menu-item" data-action="delete"><svg width="12" height="12" viewBox="0 0 24 24" fill="none" stroke="currentColor" stroke-width="2" stroke-linecap="round"><line x1="18" y1="6" x2="6" y2="18"/><line x1="6" y1="6" x2="18" y2="18"/></svg> Unregister</button>
    <button class="row-menu-item row-menu-danger" data-action="kill"><svg width="12" height="12" viewBox="0 0 24 24" fill="none" stroke="currentColor" stroke-width="2.5" stroke-linecap="round"><path d="M12 2v6"/><circle cx="12" cy="14" r="8" fill="none"/></svg> Kill process</button>
  </div>
  <div id="color-menu" style="display:none">
    <div class="color-grid"></div>
    <button class="color-reset">reset</button>
  </div>
  <div id="toasts"></div>
"#;

pub const PAGE_END: &'static str = r#"
</body>
</html>"#;

pub const EMPTY_TABLE: &'static str = r#"<p class="empty">No active ports found.</p>"#;
pub const TABLE_OPEN: &'static str = "<table>";
pub const TABLE_CLOSE: &'static str = "</table>";
pub const PLURAL_S: &'static str = "s";

/// The HTML of the rows, one after the other.
pub open spec fn rows_html(rows: Seq<RowView>) -> Seq<char>
    decreases rows.len(),
{
    if rows.len() == 0 {
        Seq::empty()
    } else {
        rows_html(rows.drop_last()) + rows.last().html
    }
}

/// The table holds the rows' HTML in row order: one row gives its own HTML, and
/// the rows of two lists one after the other give the first list's HTML then
/// the second's.
pub proof fn lemma_rows_html_in_order(a: Seq<RowView>, b: Seq<RowView>)
    ensures
        rows_html(Seq::<RowView>::empty()) == Seq::<char>::empty(),
        a.len() == 1 ==> rows_html(a) == a[0].html,
        rows_html(a + b) == rows_html(a) + rows_html(b),
    decreases b.len(),
{
    if a.len() == 1 {
        assert(a.drop_last() =~= Seq::<RowView>::empty());
        assert(rows_html(a.drop_last()) == Seq::<char>::empty());
        assert(rows_html(a) =~= a[0].html);
    }
    if b.len() == 0 {
        assert(a + b =~= a);
        assert(rows_html(a) + rows_html(b) =~= rows_html(a));
    } else {
        lemma_rows_html_in_order(a, b.drop_last());
        assert((a + b).drop_last() =~= a + b.drop_last());
        assert((a + b).last() == b.last());
        assert(rows_html(a) + rows_html(b.drop_last()) + b.last().html =~= rows_html(a) + rows_html(b));
    }
}

/// The card's content: the table of rows, or a notice when there is none.
pub open spec fn content_html(rows: Seq<RowView>) -> Seq<char> {
    if rows.len() == 0 {
        EMPTY_TABLE@
    } else {
        TABLE_OPEN@ + rows_html(rows) + TABLE_CLOSE@
    }
}

/// The plural suffix of "port" for `n` ports.
pub open spec fn plural_of(n: nat) -> Seq<char> {
    if n == 1 {
        Seq::empty()
    } else {
        PLURAL_S@
    }
}

/// The page around its rows, categories and custom colors.
pub open spec fn page_html(
    rows: Seq<RowView>,
    categories: Seq<Seq<char>>,
    tag_colors: Seq<TagColor>,
    scan_start: u16,
    scan_end: u16,
    dashboard_port: u16,
) -> Seq<char> {
    PAGE_HEAD@ + CSS@ + PAGE_CUSTOM_CSS@ + custom_css(tag_colors) + PAGE_PILL@ + decimal(rows.len())
        + PAGE_PORT_WORD@ + plural_of(rows.len()) + PAGE_RANGE@ + decimal(scan_start as nat)
        + PAGE_RANGE_DASH@ + decimal(scan_end as nat) + PAGE_NAV@ + filters_html(
        categories,
        tag_colors,
    ) + PAGE_CARD@ + content_html(rows) + PAGE_LINKS@ + decimal(dashboard_port as nat)
        + PAGE_MENUS@ + SCRIPT@ + PAGE_END@
}

fn content_text(rows: &Vec<RowData>) -> (out: String)
    ensures
        out@ == content_html(row_views(rows@)),
{
    if rows.len() == 0 {
        return EMPTY_TABLE.to_owned();
    }
    let ghost views = row_views(rows@);
    let mut out = String::new();
    out.append(TABLE_OPEN);
    let mut i: usize = 0;
    while i < rows.len()
        invariant
            i <= rows@.len(),
            views == row_views(rows@),
            out@ == TABLE_OPEN@ + rows_html(views.take(i as int)),
        decreases rows@.len() - i,
    {
        out.append(rows[i].html.as_str());
        proof {
            assert(views.take(i + 1).drop_last() =~= views.take(i as int));
            assert(views.take(i + 1).last() == rows@[i as int]@);
        }
        i = i + 1;
    }
    out.append(TABLE_CLOSE);
    assert(views.take(rows@.len() as int) =~= views);
    out
}

/// The whole dashboard page.
#[allow(clippy::too_many_lines)]
pub fn render(
    alive_ports: &[u16],
    apps: &[App],
    scan_start: u16,
    scan_end: u16,
    dashboard_port: u16,
    tag_colors: &[TagColor],
    container_ports: &[ContainerPort],
    known_ports: &[KnownPort],
) -> (page: String)
    ensures
        page@ == page_html(
            all_rows(alive_ports@, apps@, container_ports@, known_ports@),
            categories_of(apps@),
            tag_colors@,
            scan_start,
            scan_end,
            dashboard_port,
        ),
{
    let rows = build_rows(alive_ports, apps, container_ports, known_ports);
    let total = rows.len();
    let content = content_text(&rows);
    let categories = extract_categories(apps);
    let filter_btns = render_filters(categories.as_slice(), tag_colors);
    let custom = render_custom_css(tag_colors);
    proof {
        assert(categories@.map_values(|c: String| c@) =~= categories.deep_view());
    }

    let mut page = String::new();
    page.append(PAGE_HEAD);
    page.append(CSS);
    page.append(PAGE_CUSTOM_CSS);
    page.append(custom.as_str());
    page.append(PAGE_PILL);
    push_decimal(&mut page, total as u64);
    page.append(PAGE_PORT_WORD);
    if total != 1 {
        page.append(PLURAL_S);
    }
    page.append(PAGE_RANGE);
    push_decimal(&mut page, scan_start as u64);
    page.append(PAGE_RANGE_DASH);
    push_decimal(&mut page, scan_end as u64);
    page.append(PAGE_NAV);
    page.append(filter_btns.as_str());
    page.append(PAGE_CARD);
    page.append(content.as_str());
    page.append(PAGE_LINKS);
    push_decimal(&mut page, dashboard_port as u64);
    page.append(PAGE_MENUS);
    page.append(SCRIPT);
    page.append(PAGE_END);
    page
}

} // verus!
