//! Q-learning agent in a grid maze: the maze, the agent's moves and episode
//! bookkeeping, the Q-table with greedy and epsilon-greedy choice, and the
//! text of the heads-up display.

pub mod binary32;
pub mod grid;
pub mod qlearning;
pub mod agent;
pub mod hud;
