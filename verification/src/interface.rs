//! The numeric message protocol a table host speaks to a player module:
//! player-side messages, system-side messages and rule keys, each carried as
//! a small integer counted from one, plus the state block a player module
//! keeps between messages.

use vstd::prelude::*;

verus! {

/// Messages sent to a player module.
#[allow(non_camel_case_types)]
#[derive(Clone, Copy, Debug, PartialEq, Eq, Structural)]
pub enum MJPI {
    MJPI_INITIALIZE,
    MJPI_SUTEHAI,
    MJPI_ONACTION,
    MJPI_STARTGAME,
    MJPI_STARTKYOKU,
    MJPI_ENDKYOKU,
    MJPI_ENDGAME,
    MJPI_DESTROY,
    MJPI_YOURNAME,
    MJPI_CREATEINSTANCE,
    MJPI_BASHOGIME,
    MJPI_ISEXCHANGEABLE,
    MJPI_ONEXCHANGE,
}

/// The message number each MJPI value answers to, counting from one.
pub open spec fn spec_mjpi_from_value(value: isize) -> Option<MJPI> {
    if value == 1 {
        Some(MJPI::MJPI_INITIALIZE)
    } else if value == 2 {
        Some(MJPI::MJPI_SUTEHAI)
    } else if value == 3 {
        Some(MJPI::MJPI_ONACTION)
    } else if value == 4 {
        Some(MJPI::MJPI_STARTGAME)
    } else if value == 5 {
        Some(MJPI::MJPI_STARTKYOKU)
    } else if value == 6 {
        Some(MJPI::MJPI_ENDKYOKU)
    } else if value == 7 {
        Some(MJPI::MJPI_ENDGAME)
    } else if value == 8 {
        Some(MJPI::MJPI_DESTROY)
    } else if value == 9 {
        Some(MJPI::MJPI_YOURNAME)
    } else if value == 10 {
        Some(MJPI::MJPI_CREATEINSTANCE)
    } else if value == 11 {
        Some(MJPI::MJPI_BASHOGIME)
    } else if value == 12 {
        Some(MJPI::MJPI_ISEXCHANGEABLE)
    } else if value == 13 {
        Some(MJPI::MJPI_ONEXCHANGE)
    } else {
        None
    }
}

impl MJPI {
    /// Decodes a message number, counting from one in declaration order.
    pub fn from_value(value: isize) -> (r: Option<MJPI>)
        ensures
            r == spec_mjpi_from_value(value),
    {
        if value == 1 {
            Some(MJPI::MJPI_INITIALIZE)
        } else if value == 2 {
            Some(MJPI::MJPI_SUTEHAI)
        } else if value == 3 {
            Some(MJPI::MJPI_ONACTION)
        } else if value == 4 {
            Some(MJPI::MJPI_STARTGAME)
        } else if value == 5 {
            Some(MJPI::MJPI_STARTKYOKU)
        } else if value == 6 {
            Some(MJPI::MJPI_ENDKYOKU)
        } else if value == 7 {
            Some(MJPI::MJPI_ENDGAME)
        } else if value == 8 {
            Some(MJPI::MJPI_DESTROY)
        } else if value == 9 {
            Some(MJPI::MJPI_YOURNAME)
        } else if value == 10 {
            Some(MJPI::MJPI_CREATEINSTANCE)
        } else if value == 11 {
            Some(MJPI::MJPI_BASHOGIME)
        } else if value == 12 {
            Some(MJPI::MJPI_ISEXCHANGEABLE)
        } else if value == 13 {
            Some(MJPI::MJPI_ONEXCHANGE)
        } else {
            None
        }
    }
}

/// Messages a player module sends to the system.
#[allow(non_camel_case_types)]
#[derive(Clone, Copy, Debug, PartialEq, Eq, Structural)]
pub enum MJMI {
    MJMI_GETTEHAI,
    MJMI_GETKAWA,
    MJMI_GETDORA,
    MJMI_GETSCORE,
    MJMI_GETHONBA,
    MJMI_GETREACHBOU,
    MJMI_GETRULE,
    MJMI_GETVERSION,
    MJMI_GETMACHI,
    MJMI_GETAGARITEN,
    MJMI_GETHAIREMAIN,
    MJMI_GETVISIBLEHAIS,
    MJMI_FUKIDASHI,
    MJMI_KKHAIABILITY,
    MJMI_GETWAREME,
    MJMI_SETSTRUCTTYPE,
    MJMI_SETAUTOFUKIDASHI,
    MJMI_LASTTSUMOGIRI,
    MJMI_SSPUTOABILITY,
    MJMI_GETYAKUHAN,
    MJMI_GETKYOKU,
    MJMI_GETKAWAEX,
    MJMI_ANKANABILITY,
}

/// The message number each MJMI value answers to, counting from one.
pub open spec fn spec_mjmi_from_value(value: isize) -> Option<MJMI> {
    if value == 1 {
        Some(MJMI::MJMI_GETTEHAI)
    } else if value == 2 {
        Some(MJMI::MJMI_GETKAWA)
    } else if value == 3 {
        Some(MJMI::MJMI_GETDORA)
    } else if value == 4 {
        Some(MJMI::MJMI_GETSCORE)
    } else if value == 5 {
        Some(MJMI::MJMI_GETHONBA)
    } else if value == 6 {
        Some(MJMI::MJMI_GETREACHBOU)
    } else if value == 7 {
        Some(MJMI::MJMI_GETRULE)
    } else if value == 8 {
        Some(MJMI::MJMI_GETVERSION)
    } else if value == 9 {
        Some(MJMI::MJMI_GETMACHI)
    } else if value == 10 {
        Some(MJMI::MJMI_GETAGARITEN)
    } else if value == 11 {
        Some(MJMI::MJMI_GETHAIREMAIN)
    } else if value == 12 {
        Some(MJMI::MJMI_GETVISIBLEHAIS)
    } else if value == 13 {
        Some(MJMI::MJMI_FUKIDASHI)
    } else if value == 14 {
        Some(MJMI::MJMI_KKHAIABILITY)
    } else if value == 15 {
        Some(MJMI::MJMI_GETWAREME)
    } else if value == 16 {
        Some(MJMI::MJMI_SETSTRUCTTYPE)
    } else if value == 17 {
        Some(MJMI::MJMI_SETAUTOFUKIDASHI)
    } else if value == 18 {
        Some(MJMI::MJMI_LASTTSUMOGIRI)
    } else if value == 19 {
        Some(MJMI::MJMI_SSPUTOABILITY)
    } else if value == 20 {
        Some(MJMI::MJMI_GETYAKUHAN)
    } else if value == 21 {
        Some(MJMI::MJMI_GETKYOKU)
    } else if value == 22 {
        Some(MJMI::MJMI_GETKAWAEX)
    } else if value == 23 {
        Some(MJMI::MJMI_ANKANABILITY)
    } else {
        None
    }
}

impl MJMI {
    /// Decodes a message number, counting from one in declaration order.
    pub fn from_value(value: isize) -> (r: Option<MJMI>)
        ensures
            r == spec_mjmi_from_value(value),
    {
        if value == 1 {
            Some(MJMI::MJMI_GETTEHAI)
        } else if value == 2 {
            Some(MJMI::MJMI_GETKAWA)
        } else if value == 3 {
            Some(MJMI::MJMI_GETDORA)
        } else if value == 4 {
            Some(MJMI::MJMI_GETSCORE)
        } else if value == 5 {
            Some(MJMI::MJMI_GETHONBA)
        } else if value == 6 {
            Some(MJMI::MJMI_GETREACHBOU)
        } else if value == 7 {
            Some(MJMI::MJMI_GETRULE)
        } else if value == 8 {
            Some(MJMI::MJMI_GETVERSION)
        } else if value == 9 {
            Some(MJMI::MJMI_GETMACHI)
        } else if value == 10 {
            Some(MJMI::MJMI_GETAGARITEN)
        } else if value == 11 {
            Some(MJMI::MJMI_GETHAIREMAIN)
        } else if value == 12 {
            Some(MJMI::MJMI_GETVISIBLEHAIS)
        } else if value == 13 {
            Some(MJMI::MJMI_FUKIDASHI)
        } else if value == 14 {
            Some(MJMI::MJMI_KKHAIABILITY)
        } else if value == 15 {
            Some(MJMI::MJMI_GETWAREME)
        } else if value == 16 {
            Some(MJMI::MJMI_SETSTRUCTTYPE)
        } else if value == 17 {
            Some(MJMI::MJMI_SETAUTOFUKIDASHI)
        } else if value == 18 {
            Some(MJMI::MJMI_LASTTSUMOGIRI)
        } else if value == 19 {
            Some(MJMI::MJMI_SSPUTOABILITY)
        } else if value == 20 {
            Some(MJMI::MJMI_GETYAKUHAN)
        } else if value == 21 {
            Some(MJMI::MJMI_GETKYOKU)
        } else if value == 22 {
            Some(MJMI::MJMI_GETKAWAEX)
        } else if value == 23 {
            Some(MJMI::MJMI_ANKANABILITY)
        } else {
            None
        }
    }
}

/// Keys of the rule sheet a host can query.
#[allow(non_camel_case_types)]
#[derive(Clone, Copy, Debug, PartialEq, Eq, Structural)]
pub enum RULE {
    MJRL_KUITAN,
    MJRL_KANSAKI,
    MJRL_PAO,
    MJRL_RON,
    MJRL_MOCHITEN,
    MJRL_BUTTOBI,
    MJRL_WAREME,
    MJRL_AKA5,
    MJRL_SHANYU,
    MJRL_SHANYU_SCORE,
    MJRL_KUINAOSHI,
    MJRL_AKA5S,
    MJRL_URADORA,
    MJRL_SCORE0REACH,
    MJRL_RYANSHIBA,
    MJRL_DORAPLUS,
    MJRL_FURITENREACH,
    MJRL_NANNYU,
    MJRL_NANNYU_SCORE,
    MJRL_KARATEN,
    MJRL_PINZUMO,
    MJRL_NOTENOYANAGARE,
    MJRL_KANINREACH,
    MJRL_TOPOYAAGARIEND,
    MJRL_77MANGAN,
    MJRL_DBLRONCHONBO,
}

/// The message number each RULE value answers to, counting from one.
pub open spec fn spec_rule_from_value(value: isize) -> Option<RULE> {
    if value == 1 {
        Some(RULE::MJRL_KUITAN)
    } else if value == 2 {
        Some(RULE::MJRL_KANSAKI)
    } else if value == 3 {
        Some(RULE::MJRL_PAO)
    } else if value == 4 {
        Some(RULE::MJRL_RON)
    } else if value == 5 {
        Some(RULE::MJRL_MOCHITEN)
    } else if value == 6 {
        Some(RULE::MJRL_BUTTOBI)
    } else if value == 7 {
        Some(RULE::MJRL_WAREME)
    } else if value == 8 {
        Some(RULE::MJRL_AKA5)
    } else if value == 9 {
        Some(RULE::MJRL_SHANYU)
    } else if value == 10 {
        Some(RULE::MJRL_SHANYU_SCORE)
    } else if value == 11 {
        Some(RULE::MJRL_KUINAOSHI)
    } else if value == 12 {
        Some(RULE::MJRL_AKA5S)
    } else if value == 13 {
        Some(RULE::MJRL_URADORA)
    } else if value == 14 {
        Some(RULE::MJRL_SCORE0REACH)
    } else if value == 15 {
        Some(RULE::MJRL_RYANSHIBA)
    } else if value == 16 {
        Some(RULE::MJRL_DORAPLUS)
    } else if value == 17 {
        Some(RULE::MJRL_FURITENREACH)
    } else if value == 18 {
        Some(RULE::MJRL_NANNYU)
    } else if value == 19 {
        Some(RULE::MJRL_NANNYU_SCORE)
    } else if value == 20 {
        Some(RULE::MJRL_KARATEN)
    } else if value == 21 {
        Some(RULE::MJRL_PINZUMO)
    } else if value == 22 {
        Some(RULE::MJRL_NOTENOYANAGARE)
    } else if value == 23 {
        Some(RULE::MJRL_KANINREACH)
    } else if value == 24 {
        Some(RULE::MJRL_TOPOYAAGARIEND)
    } else if value == 25 {
        Some(RULE::MJRL_77MANGAN)
    } else if value == 26 {
        Some(RULE::MJRL_DBLRONCHONBO)
    } else {
        None
    }
}

impl RULE {
    /// Decodes a message number, counting from one in declaration order.
    pub fn from_value(value: isize) -> (r: Option<RULE>)
        ensures
            r == spec_rule_from_value(value),
    {
        if value == 1 {
            Some(RULE::MJRL_KUITAN)
        } else if value == 2 {
            Some(RULE::MJRL_KANSAKI)
        } else if value == 3 {
            Some(RULE::MJRL_PAO)
        } else if value == 4 {
            Some(RULE::MJRL_RON)
        } else if value == 5 {
            Some(RULE::MJRL_MOCHITEN)
        } else if value == 6 {
            Some(RULE::MJRL_BUTTOBI)
        } else if value == 7 {
            Some(RULE::MJRL_WAREME)
        } else if value == 8 {
            Some(RULE::MJRL_AKA5)
        } else if value == 9 {
            Some(RULE::MJRL_SHANYU)
        } else if value == 10 {
            Some(RULE::MJRL_SHANYU_SCORE)
        } else if value == 11 {
            Some(RULE::MJRL_KUINAOSHI)
        } else if value == 12 {
            Some(RULE::MJRL_AKA5S)
        } else if value == 13 {
            Some(RULE::MJRL_URADORA)
        } else if value == 14 {
            Some(RULE::MJRL_SCORE0REACH)
        } else if value == 15 {
            Some(RULE::MJRL_RYANSHIBA)
        } else if value == 16 {
            Some(RULE::MJRL_DORAPLUS)
        } else if value == 17 {
            Some(RULE::MJRL_FURITENREACH)
        } else if value == 18 {
            Some(RULE::MJRL_NANNYU)
        } else if value == 19 {
            Some(RULE::MJRL_NANNYU_SCORE)
        } else if value == 20 {
            Some(RULE::MJRL_KARATEN)
        } else if value == 21 {
            Some(RULE::MJRL_PINZUMO)
        } else if value == 22 {
            Some(RULE::MJRL_NOTENOYANAGARE)
        } else if value == 23 {
            Some(RULE::MJRL_KANINREACH)
        } else if value == 24 {
            Some(RULE::MJRL_TOPOYAAGARIEND)
        } else if value == 25 {
            Some(RULE::MJRL_77MANGAN)
        } else if value == 26 {
            Some(RULE::MJRL_DBLRONCHONBO)
        } else {
            None
        }
    }
}

/// The state a player module keeps between messages: per-kind counts of its
/// hand and of the discards it has seen, and where it sits.
pub struct MahjongAIState {
    pub te_cnt: [u32; 34],
    pub sute_cnt: [u32; 34],
    pub kyoku: u32,
    pub cha: u32,
    pub kaze: u32,
    pub tsumohai: i32,
}

} // verus!
