use vstd::prelude::*;
use crate::text::{eq_ascii_ci, eq_ignore_ascii_case};

verus! {

/// The kind of one historical action.
#[derive(Clone, Copy, Debug, PartialEq, Eq, Hash, Structural)]
pub enum ActionKind {
    Fac,
    Far,
    Rbp,
    Bp,
    Flc,
    Flr,
    Ftc,
    Ftr,
    Fproc,
    Fpor,
    Gan,
    Gar,
    Gtc,
    Pr,
    Wpr,
    War,
    Afd,
    Mfd,
    Tfd,
    Csd,
    Prod,
    Drv,
}

/// The canonical upper-case code of a kind.
pub open spec fn kind_code(k: ActionKind) -> Seq<char> {
    match k {
        ActionKind::Fac => seq!['F', 'A', 'C'],
        ActionKind::Far => seq!['F', 'A', 'R'],
        ActionKind::Rbp => seq!['R', 'B', 'P'],
        ActionKind::Bp => seq!['B', 'P'],
        ActionKind::Flc => seq!['F', 'L', 'C'],
        ActionKind::Flr => seq!['F', 'L', 'R'],
        ActionKind::Ftc => seq!['F', 'T', 'C'],
        ActionKind::Ftr => seq!['F', 'T', 'R'],
        ActionKind::Fproc => seq!['F', 'P', 'R', 'O', 'C'],
        ActionKind::Fpor => seq!['F', 'P', 'O', 'R'],
        ActionKind::Gan => seq!['G', 'A', 'N'],
        ActionKind::Gar => seq!['G', 'A', 'R'],
        ActionKind::Gtc => seq!['G', 'T', 'C'],
        ActionKind::Pr => seq!['P', 'R'],
        ActionKind::Wpr => seq!['W', 'P', 'R'],
        ActionKind::War => seq!['W', 'A', 'R'],
        ActionKind::Afd => seq!['A', 'F', 'D'],
        ActionKind::Mfd => seq!['M', 'F', 'D'],
        ActionKind::Tfd => seq!['T', 'F', 'D'],
        ActionKind::Csd => seq!['C', 'S', 'D'],
        ActionKind::Prod => seq!['P', 'R', 'O', 'D'],
        ActionKind::Drv => seq!['D', 'R', 'V'],
    }
}

impl ActionKind {
    /// The canonical upper-case code, as written on output.
    pub fn as_str(&self) -> (r: &'static str)
        ensures
            r@ == kind_code(*self),
    {
        let r = match self {
            ActionKind::Fac => "FAC",
            ActionKind::Far => "FAR",
            ActionKind::Rbp => "RBP",
            ActionKind::Bp => "BP",
            ActionKind::Flc => "FLC",
            ActionKind::Flr => "FLR",
            ActionKind::Ftc => "FTC",
            ActionKind::Ftr => "FTR",
            ActionKind::Fproc => "FPROC",
            ActionKind::Fpor => "FPOR",
            ActionKind::Gan => "GAN",
            ActionKind::Gar => "GAR",
            ActionKind::Gtc => "GTC",
            ActionKind::Pr => "PR",
            ActionKind::Wpr => "WPR",
            ActionKind::War => "WAR",
            ActionKind::Afd => "AFD",
            ActionKind::Mfd => "MFD",
            ActionKind::Tfd => "TFD",
            ActionKind::Csd => "CSD",
            ActionKind::Prod => "PROD",
            ActionKind::Drv => "DRV",
        };
        proof {
            reveal_strlit("FAC");
            reveal_strlit("FAR");
            reveal_strlit("RBP");
            reveal_strlit("BP");
            reveal_strlit("FLC");
            reveal_strlit("FLR");
            reveal_strlit("FTC");
            reveal_strlit("FTR");
            reveal_strlit("FPROC");
            reveal_strlit("FPOR");
            reveal_strlit("GAN");
            reveal_strlit("GAR");
            reveal_strlit("GTC");
            reveal_strlit("PR");
            reveal_strlit("WPR");
            reveal_strlit("WAR");
            reveal_strlit("AFD");
            reveal_strlit("MFD");
            reveal_strlit("TFD");
            reveal_strlit("CSD");
            reveal_strlit("PROD");
            reveal_strlit("DRV");
        }
        r
    }
}

/// The kind whose code is `t`, ignoring ASCII case.
pub open spec fn kind_of_text(t: Seq<char>) -> Option<ActionKind> {
    if eq_ascii_ci(t, kind_code(ActionKind::Fac)) {
        Some(ActionKind::Fac)
    } else if eq_ascii_ci(t, kind_code(ActionKind::Far)) {
        Some(ActionKind::Far)
    } else if eq_ascii_ci(t, kind_code(ActionKind::Rbp)) {
        Some(ActionKind::Rbp)
    } else if eq_ascii_ci(t, kind_code(ActionKind::Bp)) {
        Some(ActionKind::Bp)
    } else if eq_ascii_ci(t, kind_code(ActionKind::Flc)) {
        Some(ActionKind::Flc)
    } else if eq_ascii_ci(t, kind_code(ActionKind::Flr)) {
        Some(ActionKind::Flr)
    } else if eq_ascii_ci(t, kind_code(ActionKind::Ftc)) {
        Some(ActionKind::Ftc)
    } else if eq_ascii_ci(t, kind_code(ActionKind::Ftr)) {
        Some(ActionKind::Ftr)
    } else if eq_ascii_ci(t, kind_code(ActionKind::Fproc)) {
        Some(ActionKind::Fproc)
    } else if eq_ascii_ci(t, kind_code(ActionKind::Fpor)) {
        Some(ActionKind::Fpor)
    } else if eq_ascii_ci(t, kind_code(ActionKind::Gan)) {
        Some(ActionKind::Gan)
    } else if eq_ascii_ci(t, kind_code(ActionKind::Gar)) {
        Some(ActionKind::Gar)
    } else if eq_ascii_ci(t, kind_code(ActionKind::Gtc)) {
        Some(ActionKind::Gtc)
    } else if eq_ascii_ci(t, kind_code(ActionKind::Pr)) {
        Some(ActionKind::Pr)
    } else if eq_ascii_ci(t, kind_code(ActionKind::Wpr)) {
        Some(ActionKind::Wpr)
    } else if eq_ascii_ci(t, kind_code(ActionKind::War)) {
        Some(ActionKind::War)
    } else if eq_ascii_ci(t, kind_code(ActionKind::Afd)) {
        Some(ActionKind::Afd)
    } else if eq_ascii_ci(t, kind_code(ActionKind::Mfd)) {
        Some(ActionKind::Mfd)
    } else if eq_ascii_ci(t, kind_code(ActionKind::Tfd)) {
        Some(ActionKind::Tfd)
    } else if eq_ascii_ci(t, kind_code(ActionKind::Csd)) {
        Some(ActionKind::Csd)
    } else if eq_ascii_ci(t, kind_code(ActionKind::Prod)) {
        Some(ActionKind::Prod)
    } else if eq_ascii_ci(t, kind_code(ActionKind::Drv)) {
        Some(ActionKind::Drv)
    } else {
        None
    }
}

impl ActionKind {
    /// Reads a kind from its code, in any ASCII case.
    pub fn parse(t: &str) -> (r: Option<ActionKind>)
        ensures
            r == kind_of_text(t@),
    {
        if eq_ignore_ascii_case(t, ActionKind::Fac.as_str()) {
            return Some(ActionKind::Fac);
        }
        if eq_ignore_ascii_case(t, ActionKind::Far.as_str()) {
            return Some(ActionKind::Far);
        }
        if eq_ignore_ascii_case(t, ActionKind::Rbp.as_str()) {
            return Some(ActionKind::Rbp);
        }
        if eq_ignore_ascii_case(t, ActionKind::Bp.as_str()) {
            return Some(ActionKind::Bp);
        }
        if eq_ignore_ascii_case(t, ActionKind::Flc.as_str()) {
            return Some(ActionKind::Flc);
        }
        if eq_ignore_ascii_case(t, ActionKind::Flr.as_str()) {
            return Some(ActionKind::Flr);
        }
        if eq_ignore_ascii_case(t, ActionKind::Ftc.as_str()) {
            return Some(ActionKind::Ftc);
        }
        if eq_ignore_ascii_case(t, ActionKind::Ftr.as_str()) {
            return Some(ActionKind::Ftr);
        }
        if eq_ignore_ascii_case(t, ActionKind::Fproc.as_str()) {
            return Some(ActionKind::Fproc);
        }
        if eq_ignore_ascii_case(t, ActionKind::Fpor.as_str()) {
            return Some(ActionKind::Fpor);
        }
        if eq_ignore_ascii_case(t, ActionKind::Gan.as_str()) {
            return Some(ActionKind::Gan);
        }
        if eq_ignore_ascii_case(t, ActionKind::Gar.as_str()) {
            return Some(ActionKind::Gar);
        }
        if eq_ignore_ascii_case(t, ActionKind::Gtc.as_str()) {
            return Some(ActionKind::Gtc);
        }
        if eq_ignore_ascii_case(t, ActionKind::Pr.as_str()) {
            return Some(ActionKind::Pr);
        }
        if eq_ignore_ascii_case(t, ActionKind::Wpr.as_str()) {
            return Some(ActionKind::Wpr);
        }
        if eq_ignore_ascii_case(t, ActionKind::War.as_str()) {
            return Some(ActionKind::War);
        }
        if eq_ignore_ascii_case(t, ActionKind::Afd.as_str()) {
            return Some(ActionKind::Afd);
        }
        if eq_ignore_ascii_case(t, ActionKind::Mfd.as_str()) {
            return Some(ActionKind::Mfd);
        }
        if eq_ignore_ascii_case(t, ActionKind::Tfd.as_str()) {
            return Some(ActionKind::Tfd);
        }
        if eq_ignore_ascii_case(t, ActionKind::Csd.as_str()) {
            return Some(ActionKind::Csd);
        }
        if eq_ignore_ascii_case(t, ActionKind::Prod.as_str()) {
            return Some(ActionKind::Prod);
        }
        if eq_ignore_ascii_case(t, ActionKind::Drv.as_str()) {
            return Some(ActionKind::Drv);
        }
        None
    }
}

} // verus!
