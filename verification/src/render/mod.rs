pub mod wait_spinner;
