//! Which site hosts which event, and the listing that a request comes to.
//!
//! Every request is settled here, before the browser is touched: the event
//! names the site, and the site says whether it has the race and the year.

use crate::athlinks;
use crate::chronotrack;
use crate::its_your_race;
use crate::options::{ConfigError, Event, Opt, Site};
use crate::ultrasignup;
use vstd::prelude::*;

verus! {

/// The listing to collect, on the site that hosts it.
pub enum Listing {
    Athlinks(athlinks::Params),
    Chronotrack(chronotrack::Params),
    ItsYourRace(its_your_race::Params),
    UltraSignup(ultrasignup::Params),
}

/// The site that hosts an event.
pub open spec fn host(event: Event) -> Site {
    match event {
        Event::Shiprock => Site::Chronotrack,
        Event::Rftz
        | Event::Lt100
        | Event::DukeCityMarathon
        | Event::CorralesDitchRun
        | Event::KotH
        | Event::RioGrande
        | Event::DoggieDash
        | Event::RioDelLago => Site::Athlinks,
        Event::Moab240 | Event::JJ100 | Event::DPTR | Event::BosqueBigfoot => Site::UltraSignup,
        Event::BMDM => Site::ItsYourRace,
    }
}

/// The site that hosts an event.
pub fn site_of(event: Event) -> (site: Site)
    ensures
        site == host(event),
{
    match event {
        Event::Shiprock => Site::Chronotrack,
        Event::Rftz
        | Event::Lt100
        | Event::DukeCityMarathon
        | Event::CorralesDitchRun
        | Event::KotH
        | Event::RioGrande
        | Event::DoggieDash
        | Event::RioDelLago => Site::Athlinks,
        Event::Moab240 | Event::JJ100 | Event::DPTR | Event::BosqueBigfoot => Site::UltraSignup,
        Event::BMDM => Site::ItsYourRace,
    }
}

/// The listing that a request comes to is the one its event's site gives for
/// it, and a request that the site refuses is refused with the site's reason.
pub open spec fn is_listing_for(opt: Opt, r: Result<Listing, ConfigError>) -> bool {
    match host(opt.event) {
        Site::Athlinks => match r {
            Ok(Listing::Athlinks(p)) => athlinks::spec_params(opt) == Ok::<_, ConfigError>(p),
            Err(e) => athlinks::spec_params(opt) == Err::<athlinks::Params, _>(e),
            _ => false,
        },
        Site::Chronotrack => match r {
            Ok(Listing::Chronotrack(p)) => chronotrack::spec_params(opt) == Ok::<_, ConfigError>(
                p@,
            ),
            Err(e) => chronotrack::spec_params(opt) == Err::<chronotrack::ParamsView, _>(e),
            _ => false,
        },
        Site::ItsYourRace => match r {
            Ok(Listing::ItsYourRace(p)) => its_your_race::spec_params(opt) == Ok::<
                _,
                ConfigError,
            >(p@),
            Err(e) => its_your_race::spec_params(opt) == Err::<its_your_race::ParamsView, _>(e),
            _ => false,
        },
        Site::UltraSignup => match r {
            Ok(Listing::UltraSignup(p)) => ultrasignup::spec_params(opt) == Ok::<_, ConfigError>(
                p@,
            ),
            Err(e) => ultrasignup::spec_params(opt) == Err::<ultrasignup::ParamsView, _>(e),
            _ => false,
        },
        Site::RunSignup => false,
    }
}

/// Settles a request: the listing on the site that hosts the event, or the
/// reason why there is none.
pub fn listing(opt: Opt) -> (r: Result<Listing, ConfigError>)
    ensures
        is_listing_for(opt, r),
{
    match site_of(opt.event) {
        Site::Athlinks => match athlinks::Params::new(opt) {
            Ok(p) => Ok(Listing::Athlinks(p)),
            Err(e) => Err(e),
        },
        Site::Chronotrack => match chronotrack::Params::new(opt) {
            Ok(p) => Ok(Listing::Chronotrack(p)),
            Err(e) => Err(e),
        },
        Site::ItsYourRace => match its_your_race::Params::new(opt) {
            Ok(p) => Ok(Listing::ItsYourRace(p)),
            Err(e) => Err(e),
        },
        Site::UltraSignup | Site::RunSignup => match ultrasignup::Params::new(opt) {
            Ok(p) => Ok(Listing::UltraSignup(p)),
            Err(e) => Err(e),
        },
    }
}

/// No request is turned away for being at the wrong site: every event has its
/// host, and the host knows the event.
pub proof fn lemma_host_knows_event(opt: Opt, r: Result<Listing, ConfigError>)
    requires
        is_listing_for(opt, r),
    ensures
        !(r matches Err(ConfigError::WrongSite { .. })),
{
}

} // verus!
