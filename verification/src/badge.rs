//! SVG badge rendering.
//!
//! The badge is a flat-style SVG with the fixed label "users", a fixed RGB
//! accent color, and the total user count as its message. Rendering is
//! delegated to the `badges` crate; its output is a pure function of the
//! message text, named here by [`users_badge_svg`].

use vstd::prelude::*;
use crate::text::{dec_str, lemma_dec_str_len_u64, u64_to_dec_string};

verus! {

/// The SVG text of the flat "users" badge with message `message`.
pub uninterp spec fn users_badge_svg(message: Seq<char>) -> Seq<char>;

#[verifier::external_type_specification]
#[verifier::external_body]
pub struct ExBadgeError(badges::error::BadgeError);

/// Relies on `badges::BadgeBuilder::render`: for a fixed style, label and
/// color scheme, the rendered SVG is a function of the message text alone,
/// and rendering a short message cannot fail: the template is written into a
/// `String` by infallible formatting, and a message of at most twenty glyphs
/// keeps the template's width sums far below their integer bounds.
#[verifier::external_body]
fn render_users_badge_raw(message: &str) -> (r: Result<String, badges::error::BadgeError>)
    requires
        message@.len() <= 20,
    ensures
        r is Ok,
        r matches Ok(svg) ==> svg@ == users_badge_svg(message@),
{
    badges::BadgeBuilder::new()
        .style(badges::BadgeStyle::Flat)
        .label("users")
        .message(message)
        .message_color(badges::BadgeColor::CustomRgb(0x0, 0x7e, 0xc6))
        .render()
}

/// The reportable render-failure condition. The render contract makes it
/// unreachable, and a driver that sees it anyway must treat it as fatal:
/// there is no recovery path for a broken renderer.
#[derive(Clone, Copy, Debug, PartialEq, Eq)]
pub enum RenderError {
    BadgeRender,
}

/// Renders the badge for a total user count: the SVG is exactly the badge
/// whose message is the decimal rendering of `total`.
pub fn render_users_badge(total: u64) -> (r: Result<String, RenderError>)
    ensures
        r matches Ok(svg) && svg@ == users_badge_svg(dec_str(total as int)),
{
    let message = u64_to_dec_string(total);
    proof {
        lemma_dec_str_len_u64(total);
    }
    match render_users_badge_raw(message.as_str()) {
        Ok(svg) => Ok(svg),
        Err(_) => Err(RenderError::BadgeRender),
    }
}

} // verus!
