//! The tray-menu dispatch decision: which host action a menu selection calls
//! for. Rendering the tray icon and performing the actions (showing the
//! window, exiting) belong to the host framework; the mapping from a menu
//! entry's identifier to its action is decided here.

use vstd::prelude::*;

verus! {

/// The action a tray-menu selection calls for from the host shell.
#[derive(Clone, Copy, Debug, PartialEq, Eq, Structural)]
pub enum TrayAction {
    /// Show, un-minimize and focus the main window.
    ShowMainWindow,
    /// Terminate the process with exit code 0.
    Quit,
    /// Nothing: the identifier names no entry of ours.
    Ignore,
}

/// The bytes of `show`, the identifier of the show-window menu entry.
pub open spec fn show_id() -> Seq<u8> {
    // s      h      o      w
    seq![115u8, 104u8, 111u8, 119u8]
}

/// The bytes of `quit`, the identifier of the quit menu entry.
pub open spec fn quit_id() -> Seq<u8> {
    // q      u      i      t
    seq![113u8, 117u8, 105u8, 116u8]
}

/// The bytes of `show`, as a value.
fn show_id_bytes() -> (r: Vec<u8>)
    ensures
        r@ == show_id(),
{
    let mut v: Vec<u8> = Vec::new();
    v.push(115);
    v.push(104);
    v.push(111);
    v.push(119);
    proof {
        assert(v@ =~= show_id());
    }
    v
}

/// The bytes of `quit`, as a value.
fn quit_id_bytes() -> (r: Vec<u8>)
    ensures
        r@ == quit_id(),
{
    let mut v: Vec<u8> = Vec::new();
    v.push(113);
    v.push(117);
    v.push(105);
    v.push(116);
    proof {
        assert(v@ =~= quit_id());
    }
    v
}

/// Whether a slice holds exactly the given bytes.
fn bytes_equal(a: &[u8], b: &Vec<u8>) -> (r: bool)
    ensures
        r == (a@ == b@),
{
    if a.len() != b.len() {
        return false;
    }
    let mut k: usize = 0;
    while k < a.len()
        invariant
            a@.len() == b@.len(),
            0 <= k <= a@.len(),
            forall|m: int| 0 <= m < k ==> a@[m] == b@[m],
        decreases a@.len() - k,
    {
        if a[k] != b[k] {
            return false;
        }
        k = k + 1;
    }
    proof {
        assert(a@ =~= b@);
    }
    true
}

/// Maps a menu-entry identifier to the action it calls for: `show` shows,
/// un-minimizes and focuses the main window, `quit` terminates the process
/// with exit code 0, and any other identifier asks for nothing.
pub fn menu_action(id: &[u8]) -> (r: TrayAction)
    ensures
        id@ == show_id() ==> r == TrayAction::ShowMainWindow,
        id@ == quit_id() ==> r == TrayAction::Quit,
        id@ != show_id() && id@ != quit_id() ==> r == TrayAction::Ignore,
{
    let show = show_id_bytes();
    if bytes_equal(id, &show) {
        return TrayAction::ShowMainWindow;
    }
    let quit = quit_id_bytes();
    if bytes_equal(id, &quit) {
        return TrayAction::Quit;
    }
    TrayAction::Ignore
}

} // verus!
