//! The identifier capability: a stateless "next id" over a generator the
//! caller owns. The relay's surroundings inject the generator; nothing here
//! is a process-wide singleton.

use vstd::prelude::*;

verus! {

#[verifier::external_type_specification]
#[verifier::external_body]
pub struct ExSnowflakeIdGenerator(snowflake::SnowflakeIdGenerator);

/// Relies on snowflake::SnowflakeIdGenerator::new: it builds a generator
/// from a machine and a node number (each meant to be below 32) over the
/// UNIX epoch, reading the system clock, which must not lie before that
/// epoch.
pub assume_specification [ snowflake::SnowflakeIdGenerator::new ](
    machine_id: i32,
    node_id: i32,
) -> (g: snowflake::SnowflakeIdGenerator)
;

/// Relies on snowflake::SnowflakeIdGenerator::real_time_generate: it packs
/// the current time, the machine and node numbers and a per-millisecond
/// counter into one number. The result depends on the clock, so nothing is
/// promised of its value.
pub assume_specification [ snowflake::SnowflakeIdGenerator::real_time_generate ](
    g: &mut snowflake::SnowflakeIdGenerator,
) -> (r: i64)
;

/// The next session identifier out of the given generator. Time-based, so
/// no two calls on one generator answer alike; no value is promised.
pub fn next_id(generator: &mut snowflake::SnowflakeIdGenerator) -> i64 {
    generator.real_time_generate()
}

} // verus!
