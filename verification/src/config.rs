//! Read-only configuration consumed by the engine.
//!
//! The library performs no loading or validation itself: the embedding
//! program reads the configuration from wherever it lives and hands the
//! engine a ready [`Config`] value.

use vstd::prelude::*;

verus! {

/// One selectable station: where its manifest lives and how it is shown.
pub struct Channel {
    /// Absolute URL of the channel's HLS manifest.
    pub manifest_url: String,
    /// Display name of the channel.
    pub name: String,
    /// Opaque service identifier consumed only by the metadata subsystem.
    pub service_id: String,
}

/// Global settings plus the channel list, immutable once built.
pub struct Config {
    /// The selectable channels, indexed 1-based through [`Config::get_channel`].
    pub channels: Vec<Channel>,
    /// Device path of the display the metadata subsystem writes to.
    pub lcd_path: String,
    /// Query parameters shared by every metadata request.
    pub meta_params: Vec<(String, String)>,
    /// First metadata service endpoint.
    pub meta_url1: String,
    /// Second metadata service endpoint.
    pub meta_url2: String,
    /// Capacity of the bounded segment queue.
    pub queue_length: usize,
    /// Address of the control bus.
    pub sock_path: String,
    /// Bandwidth the variant selection aims for, in bits per second.
    pub target_bandwidth: u64,
    /// User agent sent with every outbound request.
    pub user_agent: String,
}

impl Config {
    /// The channel behind a 1-based index.
    pub fn get_channel(&self, idx: usize) -> (r: &Channel)
        requires
            1 <= idx <= self.channels@.len(),
        ensures
            r == self.channels@[idx - 1],
    {
        assert(idx != 0);
        &self.channels[idx - 1]
    }

    /// The metadata query parameters for a channel: the shared parameters with
    /// the channel's own service identifier bound to the `serviceId` key.
    pub fn get_meta_params(&self, idx: usize) -> (r: Vec<(String, String)>)
        requires
            1 <= idx <= self.channels@.len(),
        ensures
            r@.len() >= 1,
            r@.drop_last() == self.meta_params@.filter(
                |p: (String, String)| p.0@ != "serviceId"@,
            ),
            r@.last().0@ == "serviceId"@,
            r@.last().1 == self.channels@[idx - 1].service_id,
    {
        let key = "serviceId".to_owned();
        let ghost pred = |p: (String, String)| p.0@ != "serviceId"@;
        let mut params: Vec<(String, String)> = Vec::new();
        let n = self.meta_params.len();
        let mut i: usize = 0;

        while i < n
            invariant
                0 <= i <= n,
                n == self.meta_params@.len(),
                key@ == "serviceId"@,
                forall|p: (String, String)| #[trigger] pred(p) == (p.0@ != "serviceId"@),
                params@ == self.meta_params@.subrange(0, i as int).filter(pred),
            decreases n - i,
        {
            let p = &self.meta_params[i];
            let keep = !(p.0 == key);

            if keep {
                params.push((p.0.clone(), p.1.clone()));
            }

            proof {
                reveal_with_fuel(Seq::<_>::filter, 2);
                let s1 = self.meta_params@.subrange(0, i as int);
                let s2 = self.meta_params@.subrange(0, i + 1);
                assert(s2.drop_last() =~= s1);
                assert(s2.last() == self.meta_params@[i as int]);
                assert(keep == pred(s2.last()));
                assert(s2.filter(pred) == (if pred(s2.last()) {
                    s1.filter(pred).push(s2.last())
                } else {
                    s1.filter(pred)
                }));
            }

            i += 1;
        }

        proof {
            assert(self.meta_params@.subrange(0, n as int) =~= self.meta_params@);
            assert(pred =~= (|p: (String, String)| p.0@ != "serviceId"@));
        }

        let ghost kept = params@;
        params.push((key, self.channels[idx - 1].service_id.clone()));
        proof {
            assert(params@.drop_last() =~= kept);
        }

        params
    }
}

} // verus!
