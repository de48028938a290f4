use vstd::prelude::*;

use crate::config::{Config, ConfigV};
use crate::filter::{Filter, FilterAction, FilterActionV, FilterV};
use crate::rule::{Rule, RuleV};

verus! {

/// The model of the compiled-in example rule set: images, text documents
/// and zip archives are moved into their own directories.
pub open spec fn spec_example_config() -> ConfigV {
    ConfigV {
        rules: seq![
            RuleV {
                filters: seq![
                    FilterV::Mimetype("image/png"@),
                    FilterV::Mimetype("image/jpeg"@),
                    FilterV::Mimetype("image/gif"@),
                    FilterV::Mimetype("image/bmp"@),
                    FilterV::Mimetype("image/svg+xml"@),
                ],
                action: FilterActionV::Move { dest: "/home/djanatyn/images"@ },
            },
            RuleV {
                filters: seq![
                    FilterV::Mimetype("text/html"@),
                    FilterV::Mimetype("text/plain"@),
                ],
                action: FilterActionV::Move { dest: "/home/djanatyn/documents"@ },
            },
            RuleV {
                filters: seq![FilterV::Mimetype("application/zip"@)],
                action: FilterActionV::Move { dest: "/home/djanatyn/archives"@ },
            },
        ],
    }
}

/// Builds the example rule set.
pub fn config() -> (c: Config)
    ensures
        c@ == spec_example_config(),
{
    let mut f1: Vec<Filter> = Vec::new();
    f1.push(Filter::Mimetype("image/png".to_owned()));
    f1.push(Filter::Mimetype("image/jpeg".to_owned()));
    f1.push(Filter::Mimetype("image/gif".to_owned()));
    f1.push(Filter::Mimetype("image/bmp".to_owned()));
    f1.push(Filter::Mimetype("image/svg+xml".to_owned()));
    let r1 = Rule { filters: f1, action: FilterAction::Move { dest: "/home/djanatyn/images".to_owned() } };

    let mut f2: Vec<Filter> = Vec::new();
    f2.push(Filter::Mimetype("text/html".to_owned()));
    f2.push(Filter::Mimetype("text/plain".to_owned()));
    let r2 = Rule {
        filters: f2,
        action: FilterAction::Move { dest: "/home/djanatyn/documents".to_owned() },
    };

    let mut f3: Vec<Filter> = Vec::new();
    f3.push(Filter::Mimetype("application/zip".to_owned()));
    let r3 = Rule {
        filters: f3,
        action: FilterAction::Move { dest: "/home/djanatyn/archives".to_owned() },
    };

    let mut rules: Vec<Rule> = Vec::new();
    rules.push(r1);
    rules.push(r2);
    rules.push(r3);
    let c = Config { rules };
    proof {
        let m = spec_example_config();
        assert(c@.rules[0].filters =~= m.rules[0].filters);
        assert(c@.rules[1].filters =~= m.rules[1].filters);
        assert(c@.rules[2].filters =~= m.rules[2].filters);
        assert(c@.rules =~= m.rules);
    }
    c
}

} // verus!
