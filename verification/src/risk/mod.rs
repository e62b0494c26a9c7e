pub mod anomaly;
pub mod adaptive_policy;
pub mod behavioral;
pub mod velocity;
