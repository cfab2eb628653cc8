//! The categories of a dispatch.

use vstd::prelude::*;
use crate::error::Error;

verus! {

#[derive(Clone, Copy, Debug, PartialEq, Eq, Structural)]
pub enum FactbookSubcategory {
    Overview,
    History,
    Geography,
    Culture,
    Politics,
    Legislation,
    Religion,
    Military,
    Economy,
    International,
    Trivia,
    Miscellaneous,
}

#[derive(Clone, Copy, Debug, PartialEq, Eq, Structural)]
pub enum BulletinSubcategory {
    Policy,
    News,
    Opinion,
    Campaign,
}

#[derive(Clone, Copy, Debug, PartialEq, Eq, Structural)]
pub enum AccountSubcategory {
    Military,
    Trade,
    Sport,
    Drama,
    Diplomacy,
    Science,
    Culture,
    Other,
}

#[derive(Clone, Copy, Debug, PartialEq, Eq, Structural)]
pub enum MetaSubcategory {
    Gameplay,
    Reference,
}

/// The two-level category of a dispatch. Every value stands for one
/// `(category, subcategory)` pair of the remote host's closed set.
#[derive(Clone, Copy, Debug, PartialEq, Eq, Structural)]
pub enum FactbookCategory {
    Factbook(FactbookSubcategory),
    Bulletin(BulletinSubcategory),
    Account(AccountSubcategory),
    Meta(MetaSubcategory),
}

impl FactbookCategory {
    /// The numeric pair that the remote host knows this category by.
    pub open spec fn pair(self) -> (i16, i16) {
        match self {
            FactbookCategory::Factbook(s) => (
                1i16,
                match s {
                    FactbookSubcategory::Overview => 100i16,
                    FactbookSubcategory::History => 101i16,
                    FactbookSubcategory::Geography => 102i16,
                    FactbookSubcategory::Culture => 103i16,
                    FactbookSubcategory::Politics => 104i16,
                    FactbookSubcategory::Legislation => 105i16,
                    FactbookSubcategory::Religion => 106i16,
                    FactbookSubcategory::Military => 107i16,
                    FactbookSubcategory::Economy => 108i16,
                    FactbookSubcategory::International => 109i16,
                    FactbookSubcategory::Trivia => 110i16,
                    FactbookSubcategory::Miscellaneous => 111i16,
                },
            ),
            FactbookCategory::Bulletin(s) => (
                3i16,
                match s {
                    BulletinSubcategory::Policy => 305i16,
                    BulletinSubcategory::News => 315i16,
                    BulletinSubcategory::Opinion => 325i16,
                    BulletinSubcategory::Campaign => 385i16,
                },
            ),
            FactbookCategory::Account(s) => (
                5i16,
                match s {
                    AccountSubcategory::Military => 505i16,
                    AccountSubcategory::Trade => 515i16,
                    AccountSubcategory::Sport => 525i16,
                    AccountSubcategory::Drama => 535i16,
                    AccountSubcategory::Diplomacy => 545i16,
                    AccountSubcategory::Science => 555i16,
                    AccountSubcategory::Culture => 565i16,
                    AccountSubcategory::Other => 595i16,
                },
            ),
            FactbookCategory::Meta(s) => (
                8i16,
                match s {
                    MetaSubcategory::Gameplay => 835i16,
                    MetaSubcategory::Reference => 845i16,
                },
            ),
        }
    }

    /// Whether some category stands for `pair`.
    pub open spec fn known(pair: (i16, i16)) -> bool {
        exists|c: FactbookCategory| #[trigger] c.pair() == pair
    }

    pub fn to_tuple(&self) -> (pair: (i16, i16))
        ensures
            pair == self.pair(),
    {
        match self {
            FactbookCategory::Factbook(subcategory) => match subcategory {
                FactbookSubcategory::Overview => (1, 100),
                FactbookSubcategory::History => (1, 101),
                FactbookSubcategory::Geography => (1, 102),
                FactbookSubcategory::Culture => (1, 103),
                FactbookSubcategory::Politics => (1, 104),
                FactbookSubcategory::Legislation => (1, 105),
                FactbookSubcategory::Religion => (1, 106),
                FactbookSubcategory::Military => (1, 107),
                FactbookSubcategory::Economy => (1, 108),
                FactbookSubcategory::International => (1, 109),
                FactbookSubcategory::Trivia => (1, 110),
                FactbookSubcategory::Miscellaneous => (1, 111),
            },
            FactbookCategory::Bulletin(subcategory) => match subcategory {
                BulletinSubcategory::Policy => (3, 305),
                BulletinSubcategory::News => (3, 315),
                BulletinSubcategory::Opinion => (3, 325),
                BulletinSubcategory::Campaign => (3, 385),
            },
            FactbookCategory::Account(subcategory) => match subcategory {
                AccountSubcategory::Military => (5, 505),
                AccountSubcategory::Trade => (5, 515),
                AccountSubcategory::Sport => (5, 525),
                AccountSubcategory::Drama => (5, 535),
                AccountSubcategory::Diplomacy => (5, 545),
                AccountSubcategory::Science => (5, 555),
                AccountSubcategory::Culture => (5, 565),
                AccountSubcategory::Other => (5, 595),
            },
            FactbookCategory::Meta(subcategory) => match subcategory {
                MetaSubcategory::Gameplay => (8, 835),
                MetaSubcategory::Reference => (8, 845),
            },
        }
    }

    /// Reads a `(category, subcategory)` pair. The pair is accepted exactly
    /// when it belongs to the closed set, and the category returned is the
    /// one that stands for it.
    pub fn try_from(pair: (i16, i16)) -> (r: Result<FactbookCategory, Error>)
        ensures
            r is Ok <==> Self::known(pair),
            r matches Ok(c) ==> c.pair() == pair,
            r matches Err(e) ==> e == Error::InvalidFactbookCategory,
    {
        let (category, subcategory) = pair;
        let found = match category {
            1 => match subcategory {
                100 => Some(FactbookCategory::Factbook(FactbookSubcategory::Overview)),
                101 => Some(FactbookCategory::Factbook(FactbookSubcategory::History)),
                102 => Some(FactbookCategory::Factbook(FactbookSubcategory::Geography)),
                103 => Some(FactbookCategory::Factbook(FactbookSubcategory::Culture)),
                104 => Some(FactbookCategory::Factbook(FactbookSubcategory::Politics)),
                105 => Some(FactbookCategory::Factbook(FactbookSubcategory::Legislation)),
                106 => Some(FactbookCategory::Factbook(FactbookSubcategory::Religion)),
                107 => Some(FactbookCategory::Factbook(FactbookSubcategory::Military)),
                108 => Some(FactbookCategory::Factbook(FactbookSubcategory::Economy)),
                109 => Some(FactbookCategory::Factbook(FactbookSubcategory::International)),
                110 => Some(FactbookCategory::Factbook(FactbookSubcategory::Trivia)),
                111 => Some(FactbookCategory::Factbook(FactbookSubcategory::Miscellaneous)),
                _ => None,
            },
            3 => match subcategory {
                305 => Some(FactbookCategory::Bulletin(BulletinSubcategory::Policy)),
                315 => Some(FactbookCategory::Bulletin(BulletinSubcategory::News)),
                325 => Some(FactbookCategory::Bulletin(BulletinSubcategory::Opinion)),
                385 => Some(FactbookCategory::Bulletin(BulletinSubcategory::Campaign)),
                _ => None,
            },
            5 => match subcategory {
                505 => Some(FactbookCategory::Account(AccountSubcategory::Military)),
                515 => Some(FactbookCategory::Account(AccountSubcategory::Trade)),
                525 => Some(FactbookCategory::Account(AccountSubcategory::Sport)),
                535 => Some(FactbookCategory::Account(AccountSubcategory::Drama)),
                545 => Some(FactbookCategory::Account(AccountSubcategory::Diplomacy)),
                555 => Some(FactbookCategory::Account(AccountSubcategory::Science)),
                565 => Some(FactbookCategory::Account(AccountSubcategory::Culture)),
                595 => Some(FactbookCategory::Account(AccountSubcategory::Other)),
                _ => None,
            },
            8 => match subcategory {
                835 => Some(FactbookCategory::Meta(MetaSubcategory::Gameplay)),
                845 => Some(FactbookCategory::Meta(MetaSubcategory::Reference)),
                _ => None,
            },
            _ => None,
        };
        match found {
            Some(c) => {
                assert(c.pair() == pair);
                Ok(c)
            },
            None => {
                assert(forall|c: FactbookCategory| #[trigger] c.pair() != pair);
                Err(Error::InvalidFactbookCategory)
            },
        }
    }
}

/// Reading the pair of a category gives the category back: the two
/// directions of the projection agree on the whole closed set.
pub proof fn lemma_pair_is_injective(a: FactbookCategory, b: FactbookCategory)
    requires
        a.pair() == b.pair(),
    ensures
        a == b,
{
}

} // verus!
