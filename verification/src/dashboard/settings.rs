//! Dashboard preferences read from and written to the global settings.

use vstd::prelude::*;

use crate::cmd::opt_view;
use crate::state::types::GlobalSettings;

verus! {

/// Whether stale agents are hidden, as the settings have it.
pub fn load_hide_stale(settings: &GlobalSettings) -> (r: bool)
    ensures
        r == settings.hide_stale,
{
    settings.hide_stale
}

/// Record whether stale agents are hidden; nothing else changes.
pub fn save_hide_stale(settings: &mut GlobalSettings, hide_stale: bool)
    ensures
        final(settings).hide_stale == hide_stale,
        final(settings).sort_mode@ == old(settings).sort_mode@,
        final(settings).preview_size == old(settings).preview_size,
        opt_view(final(settings).last_pane_id) == opt_view(old(settings).last_pane_id),
{
    settings.hide_stale = hide_stale;
}

/// The preview pane size, when one was chosen.
pub fn load_preview_size(settings: &GlobalSettings) -> (r: Option<u8>)
    ensures
        r == settings.preview_size,
{
    settings.preview_size
}

/// Record the preview pane size; nothing else changes.
pub fn save_preview_size(settings: &mut GlobalSettings, size: u8)
    ensures
        final(settings).preview_size == Some(size),
        final(settings).sort_mode@ == old(settings).sort_mode@,
        final(settings).hide_stale == old(settings).hide_stale,
        opt_view(final(settings).last_pane_id) == opt_view(old(settings).last_pane_id),
{
    settings.preview_size = Some(size);
}

} // verus!
