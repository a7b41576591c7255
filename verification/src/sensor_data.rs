//! The concrete sample type: one reading of every sensor, with a timestamp in
//! milliseconds since the epoch. Numeric fields are plain integers in the
//! sensors' milli-units; accumulation widens into `SensorCumulatedData` and
//! the divide step reproduces a sample of truncated per-field means.

use vstd::prelude::*;

use crate::average::{div_trunc, div_trunc_i64, fold_prefix, Average};
use crate::json_display::{append_i64_dec, append_u64_dec, dec_chars, int_chars, JsonDisplay};
use vstd::string::*;

verus! {

/// One retained sample.
#[derive(Clone, Copy, PartialEq, Eq, Structural, Debug)]
pub struct SensorData {
    /// Milliseconds since the epoch at the time the sample was taken.
    pub timestamp_ms: u64,
    /// Pressure from the bmp280, in milli-units.
    pub bmp280_pressure: i64,
    /// Temperature from the bmp280, in milli-degrees.
    pub bmp280_temperature: i64,
    /// Temperature from the htu21, in milli-degrees.
    pub htu21_temperature: i64,
    /// Relative humidity from the htu21, in milli-percent.
    pub htu21_humidity: i64,
}

/// The running total of several samples. Timestamps add as a duration sum;
/// every numeric field adds into its own total.
#[derive(Clone, Copy, PartialEq, Eq, Structural, Debug)]
pub struct SensorCumulatedData {
    pub timestamp_ms: u64,
    pub bmp280_pressure: i64,
    pub bmp280_temperature: i64,
    pub htu21_temperature: i64,
    pub htu21_humidity: i64,
}

impl SensorData {
    pub fn new(
        timestamp_ms: u64,
        bmp280_pressure: i64,
        bmp280_temperature: i64,
        htu21_temperature: i64,
        htu21_humidity: i64,
    ) -> (r: SensorData)
        ensures
            r == (SensorData {
                timestamp_ms,
                bmp280_pressure,
                bmp280_temperature,
                htu21_temperature,
                htu21_humidity,
            }),
    {
        SensorData {
            timestamp_ms,
            bmp280_pressure,
            bmp280_temperature,
            htu21_temperature,
            htu21_humidity,
        }
    }

    pub fn get_bmp280_pressure(&self) -> (r: i64)
        ensures
            r == self.bmp280_pressure,
    {
        self.bmp280_pressure
    }

    pub fn get_bmp280_temperature(&self) -> (r: i64)
        ensures
            r == self.bmp280_temperature,
    {
        self.bmp280_temperature
    }

    pub fn get_htu21_temperature(&self) -> (r: i64)
        ensures
            r == self.htu21_temperature,
    {
        self.htu21_temperature
    }

    pub fn get_htu21_humidity(&self) -> (r: i64)
        ensures
            r == self.htu21_humidity,
    {
        self.htu21_humidity
    }
}

impl JsonDisplay for SensorData {
    /// One JSON object per sample: the five fields in order, each on its own
    /// line.
    open spec fn spec_json(self) -> Seq<char> {
        "{\"timestamp\": "@ + dec_chars(self.timestamp_ms as nat) + ",\n\"pressure\"  : "@
            + int_chars(self.bmp280_pressure as int) + ",\n\"bmp280Temp\": "@ + int_chars(
            self.bmp280_temperature as int,
        ) + ",\n\"htu21Temp\" : "@ + int_chars(self.htu21_temperature as int)
            + ",\n\"humidity\"  : "@ + int_chars(self.htu21_humidity as int) + "}\n"@
    }

    fn json_item(&self, w: &mut String) {
        w.append("{\"timestamp\": ");
        append_u64_dec(w, self.timestamp_ms);
        w.append(",\n\"pressure\"  : ");
        append_i64_dec(w, self.bmp280_pressure);
        w.append(",\n\"bmp280Temp\": ");
        append_i64_dec(w, self.bmp280_temperature);
        w.append(",\n\"htu21Temp\" : ");
        append_i64_dec(w, self.htu21_temperature);
        w.append(",\n\"humidity\"  : ");
        append_i64_dec(w, self.htu21_humidity);
        w.append("}\n");
        proof {
            assert(final(w)@ =~= old(w)@ + self.spec_json());
        }
    }
}

impl Average<SensorData> for SensorData {
    type Acc = SensorCumulatedData;

    open spec fn spec_empty() -> SensorCumulatedData {
        SensorCumulatedData {
            timestamp_ms: 0,
            bmp280_pressure: 0,
            bmp280_temperature: 0,
            htu21_temperature: 0,
            htu21_humidity: 0,
        }
    }

    open spec fn spec_cumulate(self, cumulated_data: SensorCumulatedData) -> SensorCumulatedData {
        SensorCumulatedData {
            timestamp_ms: cumulated_data.timestamp_ms.wrapping_add(self.timestamp_ms),
            bmp280_pressure: cumulated_data.bmp280_pressure.wrapping_add(self.bmp280_pressure),
            bmp280_temperature: cumulated_data.bmp280_temperature.wrapping_add(
                self.bmp280_temperature,
            ),
            htu21_temperature: cumulated_data.htu21_temperature.wrapping_add(
                self.htu21_temperature,
            ),
            htu21_humidity: cumulated_data.htu21_humidity.wrapping_add(self.htu21_humidity),
        }
    }

    open spec fn spec_divide(cumulated_data: SensorCumulatedData, nb_elements: int) -> SensorData {
        SensorData {
            timestamp_ms: (cumulated_data.timestamp_ms as int / nb_elements) as u64,
            bmp280_pressure: div_trunc(cumulated_data.bmp280_pressure as int, nb_elements) as i64,
            bmp280_temperature: div_trunc(
                cumulated_data.bmp280_temperature as int,
                nb_elements,
            ) as i64,
            htu21_temperature: div_trunc(
                cumulated_data.htu21_temperature as int,
                nb_elements,
            ) as i64,
            htu21_humidity: div_trunc(cumulated_data.htu21_humidity as int, nb_elements) as i64,
        }
    }

    fn empty_cumulator() -> (r: SensorCumulatedData) {
        SensorCumulatedData {
            timestamp_ms: 0,
            bmp280_pressure: 0,
            bmp280_temperature: 0,
            htu21_temperature: 0,
            htu21_humidity: 0,
        }
    }

    fn cumulate(&self, cumulated_data: &mut SensorCumulatedData) {
        cumulated_data.timestamp_ms = cumulated_data.timestamp_ms.wrapping_add(self.timestamp_ms);
        cumulated_data.bmp280_pressure = cumulated_data.bmp280_pressure.wrapping_add(
            self.bmp280_pressure,
        );
        cumulated_data.bmp280_temperature = cumulated_data.bmp280_temperature.wrapping_add(
            self.bmp280_temperature,
        );
        cumulated_data.htu21_temperature = cumulated_data.htu21_temperature.wrapping_add(
            self.htu21_temperature,
        );
        cumulated_data.htu21_humidity = cumulated_data.htu21_humidity.wrapping_add(
            self.htu21_humidity,
        );
    }

    fn divide(cumulated_data: &SensorCumulatedData, nb_elements: usize) -> (r: SensorData) {
        let divisor: u64 = nb_elements as u64;
        SensorData {
            timestamp_ms: cumulated_data.timestamp_ms / divisor,
            bmp280_pressure: div_trunc_i64(cumulated_data.bmp280_pressure, divisor),
            bmp280_temperature: div_trunc_i64(cumulated_data.bmp280_temperature, divisor),
            htu21_temperature: div_trunc_i64(cumulated_data.htu21_temperature, divisor),
            htu21_humidity: div_trunc_i64(cumulated_data.htu21_humidity, divisor),
        }
    }
}

/// The mathematical, unbounded per-field sums of the first `k` samples.
pub struct SensorSums {
    pub timestamp_ms: int,
    pub bmp280_pressure: int,
    pub bmp280_temperature: int,
    pub htu21_temperature: int,
    pub htu21_humidity: int,
}

pub open spec fn prefix_sums(s: Seq<SensorData>, k: nat) -> SensorSums
    decreases k,
{
    if k == 0 {
        SensorSums {
            timestamp_ms: 0,
            bmp280_pressure: 0,
            bmp280_temperature: 0,
            htu21_temperature: 0,
            htu21_humidity: 0,
        }
    } else {
        let p = prefix_sums(s, (k - 1) as nat);
        SensorSums {
            timestamp_ms: p.timestamp_ms + s[k - 1].timestamp_ms,
            bmp280_pressure: p.bmp280_pressure + s[k - 1].bmp280_pressure,
            bmp280_temperature: p.bmp280_temperature + s[k - 1].bmp280_temperature,
            htu21_temperature: p.htu21_temperature + s[k - 1].htu21_temperature,
            htu21_humidity: p.htu21_humidity + s[k - 1].htu21_humidity,
        }
    }
}

/// Every field of `p` still fits its widened accumulator field.
pub open spec fn sums_in_range(p: SensorSums) -> bool {
    &&& 0 <= p.timestamp_ms <= u64::MAX
    &&& i64::MIN <= p.bmp280_pressure <= i64::MAX
    &&& i64::MIN <= p.bmp280_temperature <= i64::MAX
    &&& i64::MIN <= p.htu21_temperature <= i64::MAX
    &&& i64::MIN <= p.htu21_humidity <= i64::MAX
}

/// While no partial sum leaves its field's range, the accumulator holds the
/// exact mathematical sums.
proof fn lemma_fold_is_sum(s: Seq<SensorData>, k: nat)
    requires
        k <= s.len(),
        forall|j: nat| j <= k ==> sums_in_range(#[trigger] prefix_sums(s, j)),
    ensures
        fold_prefix::<SensorData>(s, k).timestamp_ms == prefix_sums(s, k).timestamp_ms,
        fold_prefix::<SensorData>(s, k).bmp280_pressure == prefix_sums(s, k).bmp280_pressure,
        fold_prefix::<SensorData>(s, k).bmp280_temperature == prefix_sums(
            s,
            k,
        ).bmp280_temperature,
        fold_prefix::<SensorData>(s, k).htu21_temperature == prefix_sums(s, k).htu21_temperature,
        fold_prefix::<SensorData>(s, k).htu21_humidity == prefix_sums(s, k).htu21_humidity,
    decreases k,
{
    if k > 0 {
        lemma_fold_is_sum(s, (k - 1) as nat);
    }
}

/// Averaging correctness: accumulating `N` samples and dividing by `N`
/// reproduces, for each field, the arithmetic mean — rounded by unsigned
/// division for the timestamp and by truncation toward zero for the signed
/// fields.
pub proof fn lemma_average_is_mean(s: Seq<SensorData>)
    requires
        1 <= s.len(),
        forall|j: nat| j <= s.len() ==> sums_in_range(#[trigger] prefix_sums(s, j)),
    ensures
        ({
            let n = s.len() as int;
            let total = prefix_sums(s, s.len());
            SensorData::spec_divide(fold_prefix(s, s.len()), n) == (SensorData {
                timestamp_ms: (total.timestamp_ms / n) as u64,
                bmp280_pressure: div_trunc(total.bmp280_pressure, n) as i64,
                bmp280_temperature: div_trunc(total.bmp280_temperature, n) as i64,
                htu21_temperature: div_trunc(total.htu21_temperature, n) as i64,
                htu21_humidity: div_trunc(total.htu21_humidity, n) as i64,
            })
        }),
{
    lemma_fold_is_sum(s, s.len());
}

} // verus!
