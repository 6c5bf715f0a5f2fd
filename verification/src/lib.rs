//! Early-boot text output and memory-map enumeration for an x86 kernel stub.
//!
//! Two independent components: a VGA text-mode console that renders
//! characters into a fixed 80x25 grid of packed character/attribute cells,
//! and a reader for the BIOS-populated E820 table of physical memory
//! regions. Both work on plain in-memory buffers, so they can be exercised
//! against a simulated frame buffer and a synthetic memory-map blob; the
//! platform glue that binds them to fixed physical addresses and halts the
//! machine afterwards lives outside this crate.

use vstd::prelude::*;

pub mod e820;
pub mod vga;

verus! {

use crate::e820::{E820Info, spec_entries, spec_num_entries, wf_blob};
use crate::vga::{Color, Console, ConsoleView, lemma_puts_snoc, spec_clear, spec_puts};

/// The screen after the boot routine has announced `n` memory regions: a
/// cleared white-on-dark-gray screen with one marker character written
/// per region.
pub open spec fn spec_boot_view(n: nat) -> ConsoleView {
    let cleared = spec_clear(
        ConsoleView { grid: Seq::empty(), x: 0, y: 0, fg: Color::White, bg: Color::DarkGray },
    );
    spec_puts(cleared, Seq::new(n, |i: int| 'A'))
}

/// The boot-time routine: constructs a console, clears the screen, and
/// writes one marker character per region the memory-map blob declares.
/// The platform glue supplies the blob and, on real hardware, idles
/// forever afterwards; here the finished console is handed back instead.
pub fn start(map_data: Vec<u8>) -> (c: Console)
    requires
        wf_blob(map_data@),
    ensures
        c@.wf(),
        c@ == spec_boot_view(spec_num_entries(map_data@) as nat),
{
    let mut console = Console::new(Color::White, Color::DarkGray);
    console.clear();
    proof {
        assert(console@ =~~= spec_boot_view(0));
    }
    let mut map = E820Info::new(map_data);
    loop
        invariant
            console@.wf(),
            map.wf(),
            map.entries() == spec_entries(map_data@),
            console@ == spec_puts(spec_boot_view(0), Seq::new(map.cursor(), |i: int| 'A')),
        ensures
            console@.wf(),
            map.wf(),
            map.entries() == spec_entries(map_data@),
            map.cursor() >= map.entries().len(),
            console@ == spec_puts(spec_boot_view(0), Seq::new(map.cursor(), |i: int| 'A')),
        decreases map.entries().len() - map.cursor(),
    {
        let ghost done = Seq::new(map.cursor(), |i: int| 'A');
        match map.next() {
            Some(_) => {
                console.putc('A');
                proof {
                    lemma_puts_snoc(spec_boot_view(0), done, 'A');
                    assert(Seq::new(map.cursor(), |i: int| 'A') =~= done.push('A'));
                }
            },
            None => {
                break;
            },
        }
    }
    proof {
        map.lemma_cursor_in_range();
        assert(map.cursor() == spec_num_entries(map_data@));
        assert(spec_boot_view(map.cursor()) == spec_puts(
            spec_boot_view(0),
            Seq::new(map.cursor(), |i: int| 'A'),
        ));
    }
    console
}

} // verus!
