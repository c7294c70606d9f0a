//! How a button looks: its width by size and its colours by state.

use vstd::prelude::*;
use vstd::string::StringExecFns;

verus! {

/// The widths a button comes in.
#[derive(Clone, Copy, PartialEq, Eq, Structural)]
pub enum ButtonSize {
    Small,
    Big,
    Full,
}

impl ButtonSize {
    /// The style class that sets the width.
    pub open spec fn width_class(self) -> Seq<char> {
        match self {
            ButtonSize::Small => "w-24"@,
            ButtonSize::Big => "w-32"@,
            ButtonSize::Full => "w-full"@,
        }
    }
}

/// The style classes that set the colours: those of a disabled button when
/// `disabled` is `Some(true)`, those of an active one otherwise.
pub open spec fn state_class(disabled: Option<bool>) -> Seq<char> {
    if disabled == Some(true) {
        "bg-disabled"@
    } else {
        "bg-accent hover:bg-accent-hover cursor-pointer"@
    }
}

/// The style classes of a button that depend on its size and state: the
/// width class, a space, the colour classes.
pub fn button_class(size: ButtonSize, disabled: Option<bool>) -> (r: String)
    ensures
        r@ == size.width_class() + " "@ + state_class(disabled),
{
    let c_width = match size {
        ButtonSize::Small => "w-24",
        ButtonSize::Big => "w-32",
        ButtonSize::Full => "w-full",
    };
    let is_disabled = match disabled {
        Some(flag) => flag,
        None => false,
    };
    let c_disabled = if is_disabled {
        "bg-disabled"
    } else {
        "bg-accent hover:bg-accent-hover cursor-pointer"
    };
    let mut out = c_width.to_owned();
    out.append(" ");
    out.append(c_disabled);
    out
}

} // verus!
