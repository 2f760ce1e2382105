//! The help overlay of the On-demand row: what the bucket is, how a plugin gets
//! into it, and how to borrow and return one.

use vstd::prelude::*;

use crate::tui::line::{
    blank, line1, line2, line4, no_lines, put_line, sp, styled, Line, SpanV,
};
use crate::tui::theme;

verus! {

/// One line of plain text.
pub open spec fn plain(s: Seq<char>) -> Seq<SpanV> {
    seq![sp(s, theme::text())]
}

/// The overlay.
pub open spec fn help_lines() -> Seq<Seq<SpanV>> {
    seq![
        seq![sp("On-demand plugins — press esc to close"@, theme::accent())],
        Seq::empty(),
        plain("Plugins you want only sometimes, in one repo, for one task —"@),
        plain("not standing in every repo (universal) and not tied to any"@),
        plain("repo signal (a profile). They live in a separate bucket that"@),
        plain("`apply` never force-manages."@),
        Seq::empty(),
        seq![
            sp("Add one:   "@, theme::dim()),
            sp("edit a profile → Assign → On-demand"@, theme::text()),
        ],
        seq![
            sp("Use one:   "@, theme::dim()),
            sp("/cc-loadout:acquire <key>"@, theme::accent_soft()),
            sp("   then   "@, theme::dim()),
            sp("/reload-plugins"@, theme::accent_soft()),
        ],
        Seq::empty(),
        plain("It auto-reverts when this session ends. Return it early with"@),
        seq![
            sp("/cc-loadout:release <key>"@, theme::accent_soft()),
            sp(". A stuck hold: "@, theme::text()),
            sp("release --force <key>"@, theme::accent_soft()),
            sp("."@, theme::text()),
        ],
    ]
}

/// The lines of the overlay.
pub fn lines() -> (r: Vec<Line>)
    ensures
        r.deep_view() == help_lines(),
{
    let mut out = no_lines();
    put_line(&mut out, line1(styled("On-demand plugins — press esc to close", theme::accent())));
    put_line(&mut out, blank());
    put_line(
        &mut out,
        line1(
            styled("Plugins you want only sometimes, in one repo, for one task —", theme::text()),
        ),
    );
    put_line(
        &mut out,
        line1(styled("not standing in every repo (universal) and not tied to any", theme::text())),
    );
    put_line(
        &mut out,
        line1(
            styled("repo signal (a profile). They live in a separate bucket that", theme::text()),
        ),
    );
    put_line(&mut out, line1(styled("`apply` never force-manages.", theme::text())));
    put_line(&mut out, blank());
    put_line(
        &mut out,
        line2(
            styled("Add one:   ", theme::dim()),
            styled("edit a profile → Assign → On-demand", theme::text()),
        ),
    );
    put_line(
        &mut out,
        line4(
            styled("Use one:   ", theme::dim()),
            styled("/cc-loadout:acquire <key>", theme::accent_soft()),
            styled("   then   ", theme::dim()),
            styled("/reload-plugins", theme::accent_soft()),
        ),
    );
    put_line(&mut out, blank());
    put_line(
        &mut out,
        line1(
            styled("It auto-reverts when this session ends. Return it early with", theme::text()),
        ),
    );
    put_line(
        &mut out,
        line4(
            styled("/cc-loadout:release <key>", theme::accent_soft()),
            styled(". A stuck hold: ", theme::text()),
            styled("release --force <key>", theme::accent_soft()),
            styled(".", theme::text()),
        ),
    );
    assert(out.deep_view() =~= help_lines());
    out
}

} // verus!
